//! The launch of a game, step by step.
//!
//! What a step needs from the world is an action; what comes of it is the event that the
//! next step begins with. Where an action itself fails, the launch ends with that failure.

use vstd::prelude::*;
use vstd::utf8::*;
use crate::encoding;
use crate::encoding::encode_base64;
use crate::launch::arguments;
use crate::launch::arguments::parse_arguments;
use crate::launch::environment;
use crate::launch::environment::{add_mode_variables, session_variables, SessionInfo};
use crate::launch::types::{
    ActiveGame, ActiveGameContext, BootstrapLaunchArgs, LaunchError, LaunchMode, LaunchOptions, Mode,
};
use crate::path;
use crate::path::{styled_file_name, styled_parent, PathStyle};
use crate::text;
use crate::text::starts_with;

verus! {

/// What is known of an offer that the user owns.
pub struct OfferInfo {
    pub offer_id: String,
    pub content_id: String,
    pub has_cloud_save: bool,
}

/// How the license is asked for.
pub enum LicenseAuth {
    /// With the user's access token.
    AccessToken,
    /// With this persona and password.
    Direct(String, String),
}

/// How the bootstrap program is started.
pub struct SpawnPlan {
    pub bootstrap: BootstrapLaunchArgs,
    pub current_dir: String,
    pub env: Vec<(String, String)>,
    pub launch_id: String,
}

/// Where a launch is, named by the event that it waits for.
#[derive(Clone, Copy, PartialEq, Eq, Structural, Debug)]
pub enum LaunchStage {
    Start,
    Offer,
    Installed,
    ExecutePath,
    ResolvedPath,
    SetUp,
    LicenseNeeded,
    LicenseSaved,
    CloudLock,
    CloudSynced,
    CloudReleased,
    Bootstrap,
    User,
    ShortToken,
    Spawned,
}

/// What came of an action.
pub enum LaunchEvent {
    Start,
    /// The user's access token, and the offer, where the user owns one of that ID.
    Offer { access_token: String, offer: Option<OfferInfo> },
    /// Whether the offer is installed.
    Installed(bool),
    /// The path of the offer's program.
    ExecutePath(String),
    /// The path as the file system spells it.
    ResolvedPath(String),
    SetUp,
    /// Whether a license has to be requested.
    LicenseNeeded(bool),
    LicenseSaved,
    /// Whether the lock on the cloud saves was obtained.
    CloudLock(bool),
    /// Whether the cloud saves could be synchronised.
    CloudSynced(bool),
    CloudReleased,
    /// Whether the bootstrap program exists, and `MAXIMA_LAUNCH_ARGS`.
    Bootstrap { exists: bool, launch_args: Option<String> },
    User(SessionInfo),
    ShortToken(String),
}

/// What has to be done next.
pub enum LaunchAction {
    /// Get an access token and look for this offer.
    FindOffer(String),
    CheckInstalled,
    GetExecutePath,
    ResolvePath(String),
    /// Set up Wine.
    SetUp,
    /// See whether the license for this content is still valid.
    CheckLicense { auth: LicenseAuth, content_id: String },
    /// Request and save a license for this content and the game at this path.
    RequestLicense { content_id: String, path: String },
    ObtainCloudLock,
    SyncCloudSaves,
    ReleaseCloudLock,
    FindBootstrap,
    GetUser,
    /// Exchange this access token for a short one.
    RequestShortToken(String),
    Spawn,
}

/// Why a launch ends early.
pub enum Refusal {
    Launch(LaunchError),
    /// This path has no parent.
    NoParent(String),
    /// The user has no player.
    NoPlayer,
}

/// A launch under way.
pub struct GameLaunch {
    mode: LaunchMode,
    options: LaunchOptions,
    unix: bool,
    stage: LaunchStage,
    offer: Option<OfferInfo>,
    content_id: String,
    access_token: String,
    path: String,
    dir: String,
    exe_filename: String,
    plan: SpawnPlan,
}

/// An offer with texts.
pub ghost struct Offered {
    pub offer_id: Seq<char>,
    pub content_id: Seq<char>,
    pub has_cloud_save: bool,
}

impl View for OfferInfo {
    type V = Offered;

    open spec fn view(&self) -> Offered {
        Offered {
            offer_id: self.offer_id@,
            content_id: self.content_id@,
            has_cloud_save: self.has_cloud_save,
        }
    }
}

/// An offer with texts, where there is one.
pub open spec fn opt_offer(offer: Option<OfferInfo>) -> Option<Offered> {
    match offer {
        Some(o) => Some(o@),
        None => None,
    }
}

/// A plan with texts.
pub ghost struct Plan {
    pub path: Seq<char>,
    pub args: Seq<Seq<char>>,
    pub current_dir: Seq<char>,
    pub env: Seq<(Seq<char>, Seq<char>)>,
    pub launch_id: Seq<char>,
}

impl View for SpawnPlan {
    type V = Plan;

    open spec fn view(&self) -> Plan {
        Plan {
            path: self.bootstrap.path@,
            args: text::views(self.bootstrap.args@),
            current_dir: self.current_dir@,
            env: text::pair_views(self.env@),
            launch_id: self.launch_id@,
        }
    }
}

/// A launch with texts.
pub ghost struct Launch {
    pub mode: Mode,
    pub path_override: Option<Seq<char>>,
    pub arguments: Seq<Seq<char>>,
    pub cloud_saves: bool,
    pub unix: bool,
    pub stage: LaunchStage,
    pub offer: Option<Offered>,
    pub content_id: Seq<char>,
    pub access_token: Seq<char>,
    /// The game's program.
    pub path: Seq<char>,
    /// The directory of the program and its name, before the path was resolved.
    pub dir: Seq<char>,
    pub exe_filename: Seq<char>,
    pub plan: Plan,
}

impl View for GameLaunch {
    type V = Launch;

    closed spec fn view(&self) -> Launch {
        Launch {
            mode: self.mode@,
            path_override: text::opt_string(self.options.path_override),
            arguments: text::views(self.options.arguments@),
            cloud_saves: self.options.cloud_saves,
            unix: self.unix,
            stage: self.stage,
            offer: opt_offer(self.offer),
            content_id: self.content_id@,
            access_token: self.access_token@,
            path: self.path@,
            dir: self.dir@,
            exe_filename: self.exe_filename@,
            plan: self.plan@,
        }
    }
}

/// An event with texts.
pub ghost enum Event {
    Start,
    Offer(Seq<char>, Option<Offered>),
    Installed(bool),
    ExecutePath(Seq<char>),
    ResolvedPath(Seq<char>),
    SetUp,
    LicenseNeeded(bool),
    LicenseSaved,
    CloudLock(bool),
    CloudSynced(bool),
    CloudReleased,
    Bootstrap(bool, Option<Seq<char>>),
    User(SessionInfo),
    ShortToken(Seq<char>),
}

impl View for LaunchEvent {
    type V = Event;

    open spec fn view(&self) -> Event {
        match self {
            LaunchEvent::Start => Event::Start,
            LaunchEvent::Offer { access_token, offer } => Event::Offer(
                access_token@,
                opt_offer(*offer),
            ),
            LaunchEvent::Installed(b) => Event::Installed(*b),
            LaunchEvent::ExecutePath(p) => Event::ExecutePath(p@),
            LaunchEvent::ResolvedPath(p) => Event::ResolvedPath(p@),
            LaunchEvent::SetUp => Event::SetUp,
            LaunchEvent::LicenseNeeded(b) => Event::LicenseNeeded(*b),
            LaunchEvent::LicenseSaved => Event::LicenseSaved,
            LaunchEvent::CloudLock(b) => Event::CloudLock(*b),
            LaunchEvent::CloudSynced(b) => Event::CloudSynced(*b),
            LaunchEvent::CloudReleased => Event::CloudReleased,
            LaunchEvent::Bootstrap { exists, launch_args } => Event::Bootstrap(
                *exists,
                text::opt_string(*launch_args),
            ),
            LaunchEvent::User(session) => Event::User(*session),
            LaunchEvent::ShortToken(t) => Event::ShortToken(t@),
        }
    }
}

/// How the license is asked for, with texts.
pub ghost enum Auth {
    AccessToken,
    Direct(Seq<char>, Seq<char>),
}

impl View for LicenseAuth {
    type V = Auth;

    open spec fn view(&self) -> Auth {
        match self {
            LicenseAuth::AccessToken => Auth::AccessToken,
            LicenseAuth::Direct(persona, password) => Auth::Direct(persona@, password@),
        }
    }
}

/// An action with texts.
pub ghost enum Action {
    FindOffer(Seq<char>),
    CheckInstalled,
    GetExecutePath,
    ResolvePath(Seq<char>),
    SetUp,
    CheckLicense(Auth, Seq<char>),
    RequestLicense(Seq<char>, Seq<char>),
    ObtainCloudLock,
    SyncCloudSaves,
    ReleaseCloudLock,
    FindBootstrap,
    GetUser,
    RequestShortToken(Seq<char>),
    Spawn,
}

impl View for LaunchAction {
    type V = Action;

    open spec fn view(&self) -> Action {
        match self {
            LaunchAction::FindOffer(id) => Action::FindOffer(id@),
            LaunchAction::CheckInstalled => Action::CheckInstalled,
            LaunchAction::GetExecutePath => Action::GetExecutePath,
            LaunchAction::ResolvePath(p) => Action::ResolvePath(p@),
            LaunchAction::SetUp => Action::SetUp,
            LaunchAction::CheckLicense { auth, content_id } => Action::CheckLicense(
                auth@,
                content_id@,
            ),
            LaunchAction::RequestLicense { content_id, path } => Action::RequestLicense(
                content_id@,
                path@,
            ),
            LaunchAction::ObtainCloudLock => Action::ObtainCloudLock,
            LaunchAction::SyncCloudSaves => Action::SyncCloudSaves,
            LaunchAction::ReleaseCloudLock => Action::ReleaseCloudLock,
            LaunchAction::FindBootstrap => Action::FindBootstrap,
            LaunchAction::GetUser => Action::GetUser,
            LaunchAction::RequestShortToken(t) => Action::RequestShortToken(t@),
            LaunchAction::Spawn => Action::Spawn,
        }
    }
}

/// Why a launch ends early, with texts.
pub ghost enum Refused {
    NoOfferFound(Seq<char>),
    Offline,
    GamePathOffline,
    GamePath,
    NotInstalled(Seq<char>),
    BootstrapMissing,
    ContentIdAsOfferId(Seq<char>),
    NoParent(Seq<char>),
    NoPlayer,
}

impl View for Refusal {
    type V = Refused;

    open spec fn view(&self) -> Refused {
        match self {
            Refusal::Launch(LaunchError::NoOfferFound(id)) => Refused::NoOfferFound(id@),
            Refusal::Launch(LaunchError::Offline) => Refused::Offline,
            Refusal::Launch(LaunchError::GamePathOffline) => Refused::GamePathOffline,
            Refusal::Launch(LaunchError::GamePath) => Refused::GamePath,
            Refusal::Launch(LaunchError::NotInstalled(id)) => Refused::NotInstalled(id@),
            Refusal::Launch(LaunchError::BootstrapMissing) => Refused::BootstrapMissing,
            Refusal::Launch(LaunchError::ContentIdAsOfferId(id)) => Refused::ContentIdAsOfferId(id@),
            Refusal::NoParent(p) => Refused::NoParent(p@),
            Refusal::NoPlayer => Refused::NoPlayer,
        }
    }
}

/// The next state of a launch with the next action, or why it ends.
pub type Next = Result<(Launch, Action), Refused>;

/// The stage that an event belongs to.
pub open spec fn stage_of(event: Event) -> LaunchStage {
    match event {
        Event::Start => LaunchStage::Start,
        Event::Offer(_, _) => LaunchStage::Offer,
        Event::Installed(_) => LaunchStage::Installed,
        Event::ExecutePath(_) => LaunchStage::ExecutePath,
        Event::ResolvedPath(_) => LaunchStage::ResolvedPath,
        Event::SetUp => LaunchStage::SetUp,
        Event::LicenseNeeded(_) => LaunchStage::LicenseNeeded,
        Event::LicenseSaved => LaunchStage::LicenseSaved,
        Event::CloudLock(_) => LaunchStage::CloudLock,
        Event::CloudSynced(_) => LaunchStage::CloudSynced,
        Event::CloudReleased => LaunchStage::CloudReleased,
        Event::Bootstrap(_, _) => LaunchStage::Bootstrap,
        Event::User(_) => LaunchStage::User,
        Event::ShortToken(_) => LaunchStage::ShortToken,
    }
}

/// The launch waits for the event of the stage while the action is done.
pub open spec fn wait(launch: Launch, stage: LaunchStage, action: Action) -> Next {
    Ok((Launch { stage, ..launch }, action))
}

/// The first step. Without an account, the user names the program, and the content ID is
/// no offer ID.
pub open spec fn begin(launch: Launch) -> Next {
    match launch.mode {
        Mode::Offline(_) => Err(Refused::Offline),
        Mode::Online(offer_id) => wait(launch, LaunchStage::Offer, Action::FindOffer(offer_id)),
        Mode::OnlineOffline(content_id, _, _) => if launch.path_override is None {
            Err(Refused::GamePathOffline)
        } else if "Origin.OFR"@.is_prefix_of(content_id) {
            Err(Refused::ContentIdAsOfferId(content_id))
        } else {
            go_to(Launch { content_id, ..launch }, launch.path_override.unwrap())
        },
    }
}

/// With the offer: a path that the user named stands in for the test whether the offer is
/// installed.
pub open spec fn with_offer(
    launch: Launch,
    access_token: Seq<char>,
    offer: Option<Offered>,
    offer_id: Seq<char>,
) -> Next {
    match offer {
        Some(o) => {
            let known = Launch { offer, access_token, content_id: o.content_id, ..launch };
            match launch.path_override {
                Some(p) => go_to(known, p),
                None => wait(known, LaunchStage::Installed, Action::CheckInstalled),
            }
        },
        None => Err(Refused::NoOfferFound(offer_id)),
    }
}

/// How the paths of a launch are written.
pub open spec fn path_style(unix: bool) -> PathStyle {
    if unix {
        PathStyle::Unix
    } else {
        PathStyle::Windows
    }
}

/// With the path of the program.
pub open spec fn go_to(launch: Launch, program: Seq<char>) -> Next {
    match path::parent_in(path_style(launch.unix), program) {
        Some(dir) => wait(
            Launch {
                path: program,
                dir,
                exe_filename: match path::file_name_in(path_style(launch.unix), program) {
                    Some(name) => name,
                    None => Seq::empty(),
                },
                ..launch
            },
            LaunchStage::ResolvedPath,
            Action::ResolvePath(program),
        ),
        None => Err(Refused::NoParent(program)),
    }
}

/// How the license is asked for in a mode.
pub open spec fn license_auth(mode: Mode) -> Auth {
    match mode {
        Mode::OnlineOffline(_, persona, password) => Auth::Direct(persona, password),
        _ => Auth::AccessToken,
    }
}

/// With Wine set up.
pub open spec fn with_setup(launch: Launch) -> Next {
    wait(
        launch,
        LaunchStage::LicenseNeeded,
        Action::CheckLicense(license_auth(launch.mode), launch.content_id),
    )
}

/// With a valid license: cloud saves are synchronised where the user wants it and the offer
/// has them.
pub open spec fn with_license(launch: Launch) -> Next {
    if launch.mode is Online && launch.cloud_saves && launch.offer is Some
        && launch.offer.unwrap().has_cloud_save {
        wait(launch, LaunchStage::CloudLock, Action::ObtainCloudLock)
    } else {
        with_saves(launch)
    }
}

/// With the cloud saves done.
pub open spec fn with_saves(launch: Launch) -> Next {
    wait(launch, LaunchStage::Bootstrap, Action::FindBootstrap)
}

/// The arguments of the game: those that the user gave, and those of the environment.
pub open spec fn game_arguments(launch: Launch, launch_args: Option<Seq<char>>) -> Seq<Seq<char>> {
    launch.arguments + match launch_args {
        Some(a) => arguments::arguments(a),
        None => Seq::empty(),
    }
}

/// With the user known: the plan is complete but for the variables of the mode.
pub open spec fn with_user(launch: Launch, session: SessionInfo) -> Next {
    match path::parent_in(path_style(launch.unix), launch.path) {
        Some(current_dir) => match session.player_name {
            Some(name) => {
                let env = environment::session_env(
                    session,
                    name@,
                    launch.access_token,
                    launch.content_id,
                );
                let planned = Launch {
                    plan: Plan {
                        path: launch.path,
                        current_dir,
                        env,
                        launch_id: session.launch_id@,
                        ..launch.plan
                    },
                    ..launch
                };
                if launch.mode is Online {
                    wait(
                        planned,
                        LaunchStage::ShortToken,
                        Action::RequestShortToken(launch.access_token),
                    )
                } else {
                    with_token(planned, Seq::empty())
                }
            },
            None => Err(Refused::NoPlayer),
        },
        None => Err(Refused::NoParent(launch.path)),
    }
}

/// With the variables of the mode, the game can be started.
pub open spec fn with_token(launch: Launch, short_token: Seq<char>) -> Next {
    wait(
        Launch {
            plan: Plan {
                env: launch.plan.env + environment::mode_env(
                    launch.mode,
                    short_token,
                    launch.access_token,
                ),
                ..launch.plan
            },
            ..launch
        },
        LaunchStage::Spawned,
        Action::Spawn,
    )
}

/// The step of a launch that an event leads to.
pub open spec fn next(launch: Launch, event: Event) -> Next {
    match event {
        Event::Start => begin(launch),
        Event::Offer(access_token, offer) => with_offer(
            launch,
            access_token,
            offer,
            match launch.mode {
                Mode::Online(id) => id,
                _ => Seq::empty(),
            },
        ),
        Event::Installed(installed) => if installed {
            wait(launch, LaunchStage::ExecutePath, Action::GetExecutePath)
        } else {
            Err(
                Refused::NotInstalled(
                    match launch.offer {
                        Some(o) => o.offer_id,
                        None => Seq::empty(),
                    },
                ),
            )
        },
        Event::ExecutePath(program) => go_to(launch, program),
        Event::ResolvedPath(program) => {
            let found = Launch { path: program, ..launch };
            if launch.unix {
                wait(found, LaunchStage::SetUp, Action::SetUp)
            } else {
                with_setup(found)
            }
        },
        Event::SetUp => with_setup(launch),
        Event::LicenseNeeded(needed) => if needed {
            wait(
                launch,
                LaunchStage::LicenseSaved,
                Action::RequestLicense(launch.content_id, launch.path),
            )
        } else {
            with_license(launch)
        },
        Event::LicenseSaved => with_license(launch),
        Event::CloudLock(obtained) => if obtained {
            wait(launch, LaunchStage::CloudSynced, Action::SyncCloudSaves)
        } else {
            with_saves(launch)
        },
        Event::CloudSynced(_) => wait(
            launch,
            LaunchStage::CloudReleased,
            Action::ReleaseCloudLock,
        ),
        Event::CloudReleased => with_saves(launch),
        Event::Bootstrap(exists, launch_args) => if exists {
            wait(
                Launch {
                    plan: Plan { args: game_arguments(launch, launch_args), ..launch.plan },
                    ..launch
                },
                LaunchStage::User,
                Action::GetUser,
            )
        } else {
            Err(Refused::BootstrapMissing)
        },
        Event::User(session) => with_user(launch, session),
        Event::ShortToken(token) => with_token(launch, token),
    }
}

/// Whether a step came out as it should.
pub open spec fn agrees(r: Result<(GameLaunch, LaunchAction), Refusal>, expected: Next) -> bool {
    match (r, expected) {
        (Ok((launch, action)), Ok((l, a))) => launch@ == l && action@ == a,
        (Err(e), Err(x)) => e@ == x,
        _ => false,
    }
}

impl GameLaunch {
    /// A launch that has not begun; `unix` says whether the game runs under Wine.
    pub fn new(mode: LaunchMode, options: LaunchOptions, unix: bool) -> (r: Self)
        ensures
            r@ == (Launch {
                mode: mode@,
                path_override: text::opt_string(options.path_override),
                arguments: text::views(options.arguments@),
                cloud_saves: options.cloud_saves,
                unix,
                stage: LaunchStage::Start,
                offer: None,
                content_id: Seq::empty(),
                access_token: Seq::empty(),
                path: Seq::empty(),
                dir: Seq::empty(),
                exe_filename: Seq::empty(),
                plan: Plan {
                    path: Seq::empty(),
                    args: Seq::empty(),
                    current_dir: Seq::empty(),
                    env: Seq::empty(),
                    launch_id: Seq::empty(),
                },
            }),
    {
        proof {
            reveal_strlit("");
            assert(""@ =~= Seq::empty());
        }
        let launch = GameLaunch {
            mode,
            options,
            unix,
            stage: LaunchStage::Start,
            offer: None,
            content_id: "".to_owned(),
            access_token: "".to_owned(),
            path: "".to_owned(),
            dir: "".to_owned(),
            exe_filename: "".to_owned(),
            plan: SpawnPlan {
                bootstrap: BootstrapLaunchArgs { path: "".to_owned(), args: Vec::new() },
                current_dir: "".to_owned(),
                env: Vec::new(),
                launch_id: "".to_owned(),
            },
        };
        assert(launch@.plan.args =~= Seq::empty());
        assert(launch@.plan.env =~= Seq::empty());
        launch
    }

    /// The stage of the launch.
    pub fn stage(&self) -> (r: LaunchStage)
        ensures
            r == self@.stage,
    {
        self.stage
    }

    /// How the bootstrap program is started.
    pub fn plan(&self) -> (r: &SpawnPlan)
        ensures
            r@ == self@.plan,
    {
        &self.plan
    }

    fn path_style(&self) -> (r: PathStyle)
        ensures
            r == path_style(self@.unix),
    {
        if self.unix {
            PathStyle::Unix
        } else {
            PathStyle::Windows
        }
    }

    fn go_to(self, program: String) -> (r: Result<(GameLaunch, LaunchAction), Refusal>)
        ensures
            agrees(r, go_to(self@, program@)),
    {
        let style = self.path_style();
        match styled_parent(style, program.as_str()) {
            Some(dir) => {
                let exe_filename = match styled_file_name(style, program.as_str()) {
                    Some(name) => name,
                    None => String::new(),
                };
                assert(exe_filename@ =~= match path::file_name_in(style, program@) {
                    Some(name) => name,
                    None => Seq::empty(),
                });
                Ok(
                    (
                        GameLaunch {
                            path: program.clone(),
                            dir,
                            exe_filename,
                            stage: LaunchStage::ResolvedPath,
                            ..self
                        },
                        LaunchAction::ResolvePath(program),
                    ),
                )
            },
            None => Err(Refusal::NoParent(program)),
        }
    }

    fn begin(self) -> (r: Result<(GameLaunch, LaunchAction), Refusal>)
        ensures
            agrees(r, begin(self@)),
    {
        match &self.mode {
            LaunchMode::Offline(_) => Err(Refusal::Launch(LaunchError::Offline)),
            LaunchMode::Online(offer_id) => {
                let action = LaunchAction::FindOffer(offer_id.clone());
                Ok((GameLaunch { stage: LaunchStage::Offer, ..self }, action))
            },
            LaunchMode::OnlineOffline(content_id, _, _) => match &self.options.path_override {
                None => Err(Refusal::Launch(LaunchError::GamePathOffline)),
                Some(program) => if starts_with(content_id.as_str(), "Origin.OFR") {
                    Err(Refusal::Launch(LaunchError::ContentIdAsOfferId(content_id.clone())))
                } else {
                    let content_id = content_id.clone();
                    let program = program.clone();
                    let known = GameLaunch { content_id, ..self };
                    known.go_to(program)
                },
            },
        }
    }

    fn with_offer(self, access_token: String, offer: Option<OfferInfo>) -> (r: Result<
        (GameLaunch, LaunchAction),
        Refusal,
    >)
        ensures
            agrees(
                r,
                with_offer(
                    self@,
                    access_token@,
                    opt_offer(offer),
                    match self@.mode {
                        Mode::Online(id) => id,
                        _ => Seq::empty(),
                    },
                ),
            ),
    {
        match offer {
            Some(o) => {
                let content_id = o.content_id.clone();
                let program = match &self.options.path_override {
                    Some(p) => Some(p.clone()),
                    None => None,
                };
                let known = GameLaunch { offer: Some(o), access_token, content_id, ..self };
                match program {
                    Some(p) => known.go_to(p),
                    None => Ok(
                        (
                            GameLaunch { stage: LaunchStage::Installed, ..known },
                            LaunchAction::CheckInstalled,
                        ),
                    ),
                }
            },
            None => {
                let offer_id = match &self.mode {
                    LaunchMode::Online(id) => id.clone(),
                    _ => String::new(),
                };
                assert(offer_id@ =~= match self@.mode {
                    Mode::Online(id) => id,
                    _ => Seq::empty(),
                });
                Err(Refusal::Launch(LaunchError::NoOfferFound(offer_id)))
            },
        }
    }

    fn with_setup(self) -> (r: Result<(GameLaunch, LaunchAction), Refusal>)
        ensures
            agrees(r, with_setup(self@)),
    {
        let auth = match &self.mode {
            LaunchMode::OnlineOffline(_, persona, password) => LicenseAuth::Direct(
                persona.clone(),
                password.clone(),
            ),
            _ => LicenseAuth::AccessToken,
        };
        let content_id = self.content_id.clone();
        Ok(
            (
                GameLaunch { stage: LaunchStage::LicenseNeeded, ..self },
                LaunchAction::CheckLicense { auth, content_id },
            ),
        )
    }

    fn with_license(self) -> (r: Result<(GameLaunch, LaunchAction), Refusal>)
        ensures
            agrees(r, with_license(self@)),
    {
        let online = match &self.mode {
            LaunchMode::Online(_) => true,
            _ => false,
        };
        let has_cloud_save = match &self.offer {
            Some(o) => o.has_cloud_save,
            None => false,
        };
        if online && self.options.cloud_saves && has_cloud_save {
            Ok(
                (
                    GameLaunch { stage: LaunchStage::CloudLock, ..self },
                    LaunchAction::ObtainCloudLock,
                ),
            )
        } else {
            self.with_saves()
        }
    }

    fn with_saves(self) -> (r: Result<(GameLaunch, LaunchAction), Refusal>)
        ensures
            agrees(r, with_saves(self@)),
    {
        Ok((GameLaunch { stage: LaunchStage::Bootstrap, ..self }, LaunchAction::FindBootstrap))
    }

    fn with_arguments(self, launch_args: Option<String>) -> (r: Result<
        (GameLaunch, LaunchAction),
        Refusal,
    >)
        ensures
            agrees(r, next(self@, Event::Bootstrap(true, text::opt_string(launch_args)))),
    {
        let mut args: Vec<String> = Vec::new();
        let mut i: usize = 0;
        while i < self.options.arguments.len()
            invariant
                i <= self.options.arguments@.len(),
                text::views(args@) == text::views(self.options.arguments@).take(i as int),
            decreases self.options.arguments@.len() - i,
        {
            let ghost before = text::views(args@);
            let ghost all = text::views(self.options.arguments@);
            args.push(self.options.arguments[i].clone());
            assert(text::views(args@) =~= before.push(all[i as int]));
            assert(all.take(i + 1) =~= before.push(all[i as int]));
            i += 1;
        }
        assert(text::views(args@) =~= self@.arguments);
        match launch_args {
            Some(a) => {
                let ghost head = args@;
                let mut more = parse_arguments(a.as_str());
                let ghost tail = more@;
                args.append(&mut more);
                assert(text::views(args@) =~= text::views(head) + text::views(tail));
            },
            None => {
                assert(self@.arguments + Seq::<Seq<char>>::empty() =~= self@.arguments);
            },
        }
        let old_plan = self.plan;
        let plan = SpawnPlan {
            bootstrap: BootstrapLaunchArgs { path: old_plan.bootstrap.path, args },
            current_dir: old_plan.current_dir,
            env: old_plan.env,
            launch_id: old_plan.launch_id,
        };
        Ok((GameLaunch { plan, stage: LaunchStage::User, ..self }, LaunchAction::GetUser))
    }

    fn with_user(self, session: SessionInfo) -> (r: Result<(GameLaunch, LaunchAction), Refusal>)
        ensures
            agrees(r, with_user(self@, session)),
    {
        let current_dir = match styled_parent(self.path_style(), self.path.as_str()) {
            Some(d) => d,
            None => return Err(Refusal::NoParent(self.path)),
        };
        let name = match &session.player_name {
            Some(n) => n,
            None => return Err(Refusal::NoPlayer),
        };
        let env = session_variables(
            &session,
            name.as_str(),
            self.access_token.as_str(),
            self.content_id.as_str(),
        );
        let plan = SpawnPlan {
            bootstrap: BootstrapLaunchArgs { path: self.path.clone(), args: self.plan.bootstrap.args },
            current_dir,
            env,
            launch_id: session.launch_id.clone(),
        };
        let online = match &self.mode {
            LaunchMode::Online(_) => true,
            _ => false,
        };
        if online {
            let token = self.access_token.clone();
            Ok(
                (
                    GameLaunch { plan, stage: LaunchStage::ShortToken, ..self },
                    LaunchAction::RequestShortToken(token),
                ),
            )
        } else {
            let planned = GameLaunch { plan, ..self };
            proof {
                reveal_strlit("");
            }
            assert(""@ =~= Seq::empty());
            planned.with_token("")
        }
    }

    fn with_token(self, short_token: &str) -> (r: Result<(GameLaunch, LaunchAction), Refusal>)
        ensures
            agrees(r, with_token(self@, short_token@)),
    {
        let mut env = self.plan.env;
        add_mode_variables(&mut env, &self.mode, short_token, self.access_token.as_str());
        let plan = SpawnPlan {
            bootstrap: self.plan.bootstrap,
            current_dir: self.plan.current_dir,
            env,
            launch_id: self.plan.launch_id,
        };
        Ok((GameLaunch { plan, stage: LaunchStage::Spawned, ..self }, LaunchAction::Spawn))
    }

    /// The game that runs, once its process was started.
    pub fn into_context<Offer, Process>(self, offer: Option<Offer>, process: Process) -> (r:
        ActiveGameContext<Offer, Process>)
        ensures
            r@ == (ActiveGame {
                launch_id: self@.plan.launch_id,
                game_path: self@.dir,
                game_exe_filename: self@.exe_filename,
                content_id: self@.content_id,
                offer,
                mode: self@.mode,
                injections: Seq::empty(),
                cloud_saves: self@.cloud_saves,
                process,
                started: false,
            }),
    {
        ActiveGameContext::new(
            self.plan.launch_id.as_str(),
            self.dir.as_str(),
            self.exe_filename.as_str(),
            self.options.cloud_saves,
            self.content_id.as_str(),
            offer,
            self.mode,
            process,
        )
    }
}

/// Takes a launch one step on.
pub fn start_game(launch: GameLaunch, event: LaunchEvent) -> (r: Result<
    (GameLaunch, LaunchAction),
    Refusal,
>)
    requires
        launch@.stage == stage_of(event@),
    ensures
        agrees(r, next(launch@, event@)),
{
    match event {
        LaunchEvent::Start => launch.begin(),
        LaunchEvent::Offer { access_token, offer } => launch.with_offer(access_token, offer),
        LaunchEvent::Installed(installed) => if installed {
            Ok(
                (
                    GameLaunch { stage: LaunchStage::ExecutePath, ..launch },
                    LaunchAction::GetExecutePath,
                ),
            )
        } else {
            let offer_id = match launch.offer {
                Some(o) => o.offer_id,
                None => String::new(),
            };
            assert(offer_id@ =~= match launch@.offer {
                Some(o) => o.offer_id,
                None => Seq::empty(),
            });
            Err(Refusal::Launch(LaunchError::NotInstalled(offer_id)))
        },
        LaunchEvent::ExecutePath(program) => launch.go_to(program),
        LaunchEvent::ResolvedPath(program) => {
            let found = GameLaunch { path: program, ..launch };
            if found.unix {
                Ok((GameLaunch { stage: LaunchStage::SetUp, ..found }, LaunchAction::SetUp))
            } else {
                found.with_setup()
            }
        },
        LaunchEvent::SetUp => launch.with_setup(),
        LaunchEvent::LicenseNeeded(needed) => if needed {
            let action = LaunchAction::RequestLicense {
                content_id: launch.content_id.clone(),
                path: launch.path.clone(),
            };
            Ok((GameLaunch { stage: LaunchStage::LicenseSaved, ..launch }, action))
        } else {
            launch.with_license()
        },
        LaunchEvent::LicenseSaved => launch.with_license(),
        LaunchEvent::CloudLock(obtained) => if obtained {
            Ok(
                (
                    GameLaunch { stage: LaunchStage::CloudSynced, ..launch },
                    LaunchAction::SyncCloudSaves,
                ),
            )
        } else {
            launch.with_saves()
        },
        LaunchEvent::CloudSynced(_) => Ok(
            (
                GameLaunch { stage: LaunchStage::CloudReleased, ..launch },
                LaunchAction::ReleaseCloudLock,
            ),
        ),
        LaunchEvent::CloudReleased => launch.with_saves(),
        LaunchEvent::Bootstrap { exists, launch_args } => if exists {
            launch.with_arguments(launch_args)
        } else {
            Err(Refusal::Launch(LaunchError::BootstrapMissing))
        },
        LaunchEvent::User(session) => launch.with_user(session),
        LaunchEvent::ShortToken(token) => launch.with_token(token.as_str()),
    }
}

/// The arguments of the bootstrap program; `json` is the JSON of a `BootstrapLaunchArgs`.
pub fn bootstrap_arguments(json: &str) -> (r: Vec<String>)
    requires
        encoding::base64_fits(encode_utf8(json@).len()),
    ensures
        text::views(r@) == seq!["launch"@, encoding::base64(encode_utf8(json@))],
{
    let args = vec!["launch".to_owned(), encode_base64(json.as_bytes())];
    assert(text::views(args@) =~= seq!["launch"@, encoding::base64(encode_utf8(json@))]);
    args
}

/// The place of a stage in the order of a launch.
pub open spec fn rank(stage: LaunchStage) -> int {
    match stage {
        LaunchStage::Start => 0,
        LaunchStage::Offer => 1,
        LaunchStage::Installed => 2,
        LaunchStage::ExecutePath => 3,
        LaunchStage::ResolvedPath => 4,
        LaunchStage::SetUp => 5,
        LaunchStage::LicenseNeeded => 6,
        LaunchStage::LicenseSaved => 7,
        LaunchStage::CloudLock => 8,
        LaunchStage::CloudSynced => 9,
        LaunchStage::CloudReleased => 10,
        LaunchStage::Bootstrap => 11,
        LaunchStage::User => 12,
        LaunchStage::ShortToken => 13,
        LaunchStage::Spawned => 14,
    }
}

/// The state of a launch after some events, where each came when it was waited for and none
/// of them ended the launch.
pub open spec fn run(launch: Launch, events: Seq<Event>) -> Option<Launch>
    decreases events.len(),
{
    if events.len() == 0 {
        Some(launch)
    } else {
        match run(launch, events.drop_last()) {
            Some(l) => if l.stage == stage_of(events.last()) {
                match next(l, events.last()) {
                    Ok((after, _)) => Some(after),
                    Err(_) => None,
                }
            } else {
                None
            },
            None => None,
        }
    }
}

/// Each step of a launch comes after the ones before it in the fixed order, so that none
/// comes twice; and no step changes what the user asked for.
pub proof fn launch_moves_forward(launch: Launch, events: Seq<Event>)
    requires
        run(launch, events) is Some,
    ensures
        rank(run(launch, events).unwrap().stage) >= rank(launch.stage) + events.len(),
        run(launch, events).unwrap().mode == launch.mode,
        run(launch, events).unwrap().path_override == launch.path_override,
        run(launch, events).unwrap().arguments == launch.arguments,
        run(launch, events).unwrap().cloud_saves == launch.cloud_saves,
        run(launch, events).unwrap().unix == launch.unix,
    decreases events.len(),
{
    if events.len() > 0 {
        launch_moves_forward(launch, events.drop_last());
    }
}

/// Whether one of the events was waited for at this stage.
pub open spec fn passed(events: Seq<Event>, stage: LaunchStage) -> bool {
    exists|i: int| 0 <= i < events.len() && stage_of(#[trigger] events[i]) == stage
}

proof fn lemma_passed(events: Seq<Event>, stage: LaunchStage)
    requires
        events.len() > 0,
    ensures
        passed(events.drop_last(), stage) ==> passed(events, stage),
        stage_of(events.last()) == stage ==> passed(events, stage),
{
    let before = events.drop_last();
    if passed(before, stage) {
        let i = choose|i: int| 0 <= i < before.len() && stage_of(#[trigger] before[i]) == stage;
        assert(events[i] == before[i]);
    }
    assert(events[events.len() - 1] == events.last());
}

/// No game is started before its license was checked, the bootstrap program was found and
/// the user was known; under Wine also not before that was set up, and online not before
/// the offer was found and the short token was had.
pub proof fn start_comes_last(launch: Launch, events: Seq<Event>)
    requires
        launch.stage == LaunchStage::Start,
        run(launch, events) is Some,
    ensures
        ({
            let reached = rank(run(launch, events).unwrap().stage);
            let online = launch.mode is Online;
            &&& reached > 1 && online ==> passed(events, LaunchStage::Offer)
            &&& reached > 5 && launch.unix ==> passed(events, LaunchStage::SetUp)
            &&& reached > 6 ==> passed(events, LaunchStage::LicenseNeeded)
            &&& reached > 11 ==> passed(events, LaunchStage::Bootstrap)
            &&& reached > 12 ==> passed(events, LaunchStage::User)
            &&& reached > 13 && online ==> passed(events, LaunchStage::ShortToken)
        }),
    decreases events.len(),
{
    if events.len() > 0 {
        let before = events.drop_last();
        start_comes_last(launch, before);
        launch_moves_forward(launch, before);
        lemma_passed(events, LaunchStage::Offer);
        lemma_passed(events, LaunchStage::SetUp);
        lemma_passed(events, LaunchStage::LicenseNeeded);
        lemma_passed(events, LaunchStage::Bootstrap);
        lemma_passed(events, LaunchStage::User);
        lemma_passed(events, LaunchStage::ShortToken);
    }
}

/// A lock on the cloud saves that was obtained is released right after the synchronisation,
/// whether that worked or not, and a lock that was refused does not stop the launch.
pub proof fn cloud_lock_is_released(launch: Launch, synced: bool)
    ensures
        next(launch, Event::CloudLock(true)) matches Ok((l, a)) && a == Action::SyncCloudSaves && (
        next(l, Event::CloudSynced(synced)) matches Ok((_, b)) && b == Action::ReleaseCloudLock),
        next(launch, Event::CloudLock(false)) matches Ok((_, c)) && c == Action::FindBootstrap,
{
}

/// An online launch of an installed offer under Wine, with a license that is still valid and
/// no cloud saves, starts the program of the offer with the arguments of the user and of the
/// environment.
pub proof fn online_launch(
    launch: Launch,
    offer_id: Seq<char>,
    access_token: Seq<char>,
    offer: Offered,
    program: Seq<char>,
    resolved: Seq<char>,
    launch_args: Option<Seq<char>>,
    session: SessionInfo,
    short_token: Seq<char>,
)
    requires
        launch.stage == LaunchStage::Start,
        launch.mode == Mode::Online(offer_id),
        launch.path_override is None,
        launch.unix,
        !launch.cloud_saves,
        path::parent(program) is Some,
        path::parent(resolved) is Some,
        session.player_name is Some,
    ensures
        ({
            let events = seq![
                Event::Start,
                Event::Offer(access_token, Some(offer)),
                Event::Installed(true),
                Event::ExecutePath(program),
                Event::ResolvedPath(resolved),
                Event::SetUp,
                Event::LicenseNeeded(false),
                Event::Bootstrap(true, launch_args),
                Event::User(session),
                Event::ShortToken(short_token),
            ];
            let end = run(launch, events);
            &&& end is Some
            &&& end.unwrap().stage == LaunchStage::Spawned
            &&& end.unwrap().dir == path::parent(program).unwrap()
            &&& end.unwrap().content_id == offer.content_id
            &&& end.unwrap().plan == (Plan {
                path: resolved,
                args: launch.arguments + (if launch_args is Some {
                    arguments::arguments(launch_args.unwrap())
                } else {
                    Seq::empty()
                }),
                current_dir: path::parent(resolved).unwrap(),
                env: environment::session_env(
                    session,
                    session.player_name.unwrap()@,
                    access_token,
                    offer.content_id,
                ) + environment::mode_env(launch.mode, short_token, access_token),
                launch_id: session.launch_id@,
            })
        }),
{
    let events = seq![
        Event::Start,
        Event::Offer(access_token, Some(offer)),
        Event::Installed(true),
        Event::ExecutePath(program),
        Event::ResolvedPath(resolved),
        Event::SetUp,
        Event::LicenseNeeded(false),
        Event::Bootstrap(true, launch_args),
        Event::User(session),
        Event::ShortToken(short_token),
    ];
    assert(events.take(0) =~= Seq::empty());
    let l0 = launch;
    let l1 = lemma_step(launch, events, 0, l0);
    let l2 = lemma_step(launch, events, 1, l1);
    let l3 = lemma_step(launch, events, 2, l2);
    let l4 = lemma_step(launch, events, 3, l3);
    let l5 = lemma_step(launch, events, 4, l4);
    let l6 = lemma_step(launch, events, 5, l5);
    let l7 = lemma_step(launch, events, 6, l6);
    let l8 = lemma_step(launch, events, 7, l7);
    let l9 = lemma_step(launch, events, 8, l8);
    let l10 = lemma_step(launch, events, 9, l9);
    assert(events.take(10) =~= events);
}

/// A launch with a persona and a password of its own starts the program that the user named,
/// without an access token.
pub proof fn online_offline_launch(
    launch: Launch,
    content_id: Seq<char>,
    persona: Seq<char>,
    password: Seq<char>,
    program: Seq<char>,
    resolved: Seq<char>,
    launch_args: Option<Seq<char>>,
    session: SessionInfo,
)
    requires
        launch.stage == LaunchStage::Start,
        launch.mode == Mode::OnlineOffline(content_id, persona, password),
        launch.path_override == Some(program),
        launch.access_token.len() == 0,
        launch.unix,
        !"Origin.OFR"@.is_prefix_of(content_id),
        path::parent(program) is Some,
        path::parent(resolved) is Some,
        session.player_name is Some,
    ensures
        ({
            let events = seq![
                Event::Start,
                Event::ResolvedPath(resolved),
                Event::SetUp,
                Event::LicenseNeeded(true),
                Event::LicenseSaved,
                Event::Bootstrap(true, launch_args),
                Event::User(session),
            ];
            let end = run(launch, events);
            &&& end is Some
            &&& end.unwrap().stage == LaunchStage::Spawned
            &&& end.unwrap().content_id == content_id
            &&& end.unwrap().plan == (Plan {
                path: resolved,
                args: launch.arguments + (if launch_args is Some {
                    arguments::arguments(launch_args.unwrap())
                } else {
                    Seq::empty()
                }),
                current_dir: path::parent(resolved).unwrap(),
                env: environment::session_env(
                    session,
                    session.player_name.unwrap()@,
                    Seq::empty(),
                    content_id,
                ) + environment::mode_env(launch.mode, Seq::empty(), Seq::empty()),
                launch_id: session.launch_id@,
            })
        }),
{
    let events = seq![
        Event::Start,
        Event::ResolvedPath(resolved),
        Event::SetUp,
        Event::LicenseNeeded(true),
        Event::LicenseSaved,
        Event::Bootstrap(true, launch_args),
        Event::User(session),
    ];
    assert(launch.access_token =~= Seq::empty());
    assert(events.take(0) =~= Seq::empty());
    let l0 = launch;
    let l1 = lemma_step(launch, events, 0, l0);
    let l2 = lemma_step(launch, events, 1, l1);
    let l3 = lemma_step(launch, events, 2, l2);
    let l4 = lemma_step(launch, events, 3, l3);
    let l5 = lemma_step(launch, events, 4, l4);
    let l6 = lemma_step(launch, events, 5, l5);
    let l7 = lemma_step(launch, events, 6, l6);
    assert(events.take(7) =~= events);
}

proof fn lemma_step(launch: Launch, events: Seq<Event>, i: int, l: Launch) -> (after: Launch)
    requires
        0 <= i < events.len(),
        run(launch, events.take(i)) == Some(l),
        l.stage == stage_of(events[i]),
        next(l, events[i]) is Ok,
    ensures
        after == next(l, events[i])->Ok_0.0,
        run(launch, events.take(i + 1)) == Some(after),
{
    let upto = events.take(i + 1);
    assert(upto.drop_last() =~= events.take(i));
    assert(upto.last() == events[i]);
    next(l, events[i])->Ok_0.0
}

/// The game is given all arguments of the user, in order and unchanged, and then exactly those
/// that `MAXIMA_LAUNCH_ARGS` holds, where that is set; and nothing else of the plan changes.
pub proof fn game_is_given_all_arguments(launch: Launch, launch_args: Option<Seq<char>>)
    ensures
        next(launch, Event::Bootstrap(true, launch_args)) matches Ok((l, a)) && {
            let n = launch.arguments.len() as int;
            let more = if launch_args is Some {
                arguments::arguments(launch_args.unwrap())
            } else {
                Seq::empty()
            };
            &&& a == Action::GetUser
            &&& l.plan.args.len() == n + more.len()
            &&& l.plan.args.take(n) == launch.arguments
            &&& l.plan.args.skip(n) == more
            &&& l.plan == (Plan { args: l.plan.args, ..launch.plan })
        },
{
    let n = launch.arguments.len() as int;
    let l = next(launch, Event::Bootstrap(true, launch_args))->Ok_0.0;
    assert(l.plan.args.take(n) =~= launch.arguments);
    assert(l.plan.args.skip(n) =~= if launch_args is Some {
        arguments::arguments(launch_args.unwrap())
    } else {
        Seq::empty()
    });
}

/// A launch ends early exactly here: offline; with a persona of its own where no path is named
/// or an offer ID stands for the content ID; without the offer, its installation, the bootstrap
/// program or a player; and with a path that has no parent.
pub proof fn launch_ends_early_exactly_here(launch: Launch, event: Event)
    ensures
        next(launch, event) is Err <==> match event {
            Event::Start => match launch.mode {
                Mode::Offline(_) => true,
                Mode::Online(_) => false,
                Mode::OnlineOffline(content_id, _, _) => {
                    ||| launch.path_override is None
                    ||| "Origin.OFR"@.is_prefix_of(content_id)
                    ||| no_parent(launch, launch.path_override.unwrap())
                },
            },
            Event::Offer(_, offer) => offer is None || (launch.path_override is Some && no_parent(
                launch,
                launch.path_override.unwrap(),
            )),
            Event::Installed(installed) => !installed,
            Event::ExecutePath(p) => no_parent(launch, p),
            Event::Bootstrap(exists, _) => !exists,
            Event::User(session) => session.player_name is None || no_parent(launch, launch.path),
            _ => false,
        },
{
}

/// Whether a path of a launch has no parent.
pub open spec fn no_parent(launch: Launch, p: Seq<char>) -> bool {
    path::parent_in(
        if launch.unix {
            PathStyle::Unix
        } else {
            PathStyle::Windows
        },
        p,
    ) is None
}

/// Why a launch ends early is told with what it was about.
pub proof fn refusal_tells_the_reason(launch: Launch, event: Event)
    requires
        next(launch, event) is Err,
    ensures
        match (event, launch.mode) {
            (Event::Start, Mode::OnlineOffline(content_id, _, _)) => next(launch, event)->Err_0 == (
            if launch.path_override is None {
                Refused::GamePathOffline
            } else if "Origin.OFR"@.is_prefix_of(content_id) {
                Refused::ContentIdAsOfferId(content_id)
            } else {
                Refused::NoParent(launch.path_override.unwrap())
            }),
            (Event::Start, _) => next(launch, event)->Err_0 == Refused::Offline,
            (Event::Offer(_, None), Mode::Online(id)) => next(launch, event)->Err_0
                == Refused::NoOfferFound(id),
            (Event::Offer(_, Some(_)), _) => next(launch, event)->Err_0 == Refused::NoParent(
                launch.path_override.unwrap(),
            ),
            (Event::Installed(_), _) => launch.offer is Some ==> next(launch, event)->Err_0
                == Refused::NotInstalled(launch.offer.unwrap().offer_id),
            (Event::ExecutePath(p), _) => next(launch, event)->Err_0 == Refused::NoParent(p),
            (Event::Bootstrap(_, _), _) => next(launch, event)->Err_0 == Refused::BootstrapMissing,
            (Event::User(session), _) => next(launch, event)->Err_0 == (if no_parent(
                launch,
                launch.path,
            ) {
                Refused::NoParent(launch.path)
            } else {
                Refused::NoPlayer
            }),
            _ => true,
        },
{
}

/// Each step asks for what has to be done next: a path that the user names is not looked for;
/// the license is checked with the persona and the password of a launch that has its own, and
/// with the access token otherwise; a license is requested only where it is needed; cloud saves
/// are synchronised exactly where the launch is online, the user wants it and the offer has
/// them; and only an online launch asks for the short token.
pub proof fn each_step_asks_for_the_next(launch: Launch, event: Event)
    requires
        next(launch, event) is Ok,
    ensures
        ({
            let action = next(launch, event)->Ok_0.1;
            let check = Action::CheckLicense(
                match launch.mode {
                    Mode::OnlineOffline(_, persona, password) => Auth::Direct(persona, password),
                    _ => Auth::AccessToken,
                },
                launch.content_id,
            );
            let saves = launch.mode is Online && launch.cloud_saves && launch.offer is Some
                && launch.offer.unwrap().has_cloud_save;
            match event {
                Event::Start => match launch.mode {
                    Mode::Online(id) => action == Action::FindOffer(id),
                    _ => action == Action::ResolvePath(launch.path_override.unwrap()),
                },
                Event::Offer(_, _) => match launch.path_override {
                    Some(p) => action == Action::ResolvePath(p),
                    None => action == Action::CheckInstalled,
                },
                Event::Installed(_) => action == Action::GetExecutePath,
                Event::ExecutePath(p) => action == Action::ResolvePath(p),
                Event::ResolvedPath(_) => if launch.unix {
                    action == Action::SetUp
                } else {
                    action == check
                },
                Event::SetUp => action == check,
                Event::LicenseNeeded(true) => action == Action::RequestLicense(
                    launch.content_id,
                    launch.path,
                ),
                Event::LicenseNeeded(false) | Event::LicenseSaved => if saves {
                    action == Action::ObtainCloudLock
                } else {
                    action == Action::FindBootstrap
                },
                Event::CloudLock(true) => action == Action::SyncCloudSaves,
                Event::CloudLock(false) => action == Action::FindBootstrap,
                Event::CloudSynced(_) => action == Action::ReleaseCloudLock,
                Event::CloudReleased => action == Action::FindBootstrap,
                Event::Bootstrap(_, _) => action == Action::GetUser,
                Event::User(_) => if launch.mode is Online {
                    action == Action::RequestShortToken(launch.access_token)
                } else {
                    action == Action::Spawn
                },
                Event::ShortToken(_) => action == Action::Spawn,
            }
        }),
{
}

/// The launch waits for the event that belongs to the action it asks for.
pub proof fn launch_waits_for_its_action(launch: Launch, event: Event)
    requires
        next(launch, event) is Ok,
    ensures
        ({
            let (l, action) = next(launch, event)->Ok_0;
            l.stage == match action {
                Action::FindOffer(_) => LaunchStage::Offer,
                Action::CheckInstalled => LaunchStage::Installed,
                Action::GetExecutePath => LaunchStage::ExecutePath,
                Action::ResolvePath(_) => LaunchStage::ResolvedPath,
                Action::SetUp => LaunchStage::SetUp,
                Action::CheckLicense(_, _) => LaunchStage::LicenseNeeded,
                Action::RequestLicense(_, _) => LaunchStage::LicenseSaved,
                Action::ObtainCloudLock => LaunchStage::CloudLock,
                Action::SyncCloudSaves => LaunchStage::CloudSynced,
                Action::ReleaseCloudLock => LaunchStage::CloudReleased,
                Action::FindBootstrap => LaunchStage::Bootstrap,
                Action::GetUser => LaunchStage::User,
                Action::RequestShortToken(_) => LaunchStage::ShortToken,
                Action::Spawn => LaunchStage::Spawned,
            }
        }),
{
}

/// What the events told a launch is what its plan holds, however the launch went on: the token
/// and the content of the offer, the path that was resolved, the program's directory and name,
/// the arguments, the player, and the environment that is made of these.
pub proof fn launch_keeps_what_it_was_told(launch: Launch, events: Seq<Event>, i: int)
    requires
        run(launch, events) is Some,
        0 <= i < events.len(),
    ensures
        ({
            let l = run(launch, events).unwrap();
            let n = launch.arguments.len() as int;
            &&& rank(l.stage) > rank(stage_of(events[i]))
            &&& match events[i] {
                Event::Offer(token, offer) => {
                    &&& offer is Some
                    &&& l.offer == offer
                    &&& l.access_token == token
                    &&& l.content_id == offer.unwrap().content_id
                    &&& launch.path_override is Some ==> rank(l.stage) > 3 && names_program(
                        l,
                        launch.path_override.unwrap(),
                    )
                },
                Event::Start => match launch.mode {
                    Mode::OnlineOffline(content_id, _, _) => {
                        &&& rank(l.stage) > 3
                        &&& l.content_id == content_id
                        &&& launch.path_override is Some && names_program(
                            l,
                            launch.path_override.unwrap(),
                        )
                    },
                    _ => true,
                },
                Event::ExecutePath(p) => names_program(l, p),
                Event::ResolvedPath(p) => l.path == p,
                Event::Bootstrap(_, Some(a)) => {
                    &&& l.plan.args.len() == n + arguments::arguments(a).len()
                    &&& l.plan.args.take(n) == launch.arguments
                    &&& l.plan.args.skip(n) == arguments::arguments(a)
                },
                Event::Bootstrap(_, None) => l.plan.args == launch.arguments,
                Event::User(session) => {
                    &&& session.player_name is Some
                    &&& l.plan.path == l.path
                    &&& Some(l.plan.current_dir) == path::parent_in(
                        if launch.unix {
                            PathStyle::Unix
                        } else {
                            PathStyle::Windows
                        },
                        l.path,
                    )
                    &&& l.plan.launch_id == session.launch_id@
                    &&& !(launch.mode is Online) ==> l.stage == LaunchStage::Spawned
                    &&& !(launch.mode is Online) ==> l.plan.env == environment::game_env(
                        session,
                        session.player_name.unwrap()@,
                        l.access_token,
                        l.content_id,
                        launch.mode,
                        Seq::empty(),
                    )
                    &&& l.stage == LaunchStage::ShortToken ==> l.plan.env
                        == environment::session_env(
                        session,
                        session.player_name.unwrap()@,
                        l.access_token,
                        l.content_id,
                    )
                },
                _ => true,
            }
        }),
    decreases events.len(),
{
    let before = events.drop_last();
    let l = run(launch, before).unwrap();
    let end = run(launch, events).unwrap();
    launch_moves_forward(launch, before);
    launch_moves_forward(launch, events);
    if i < before.len() {
        launch_keeps_what_it_was_told(launch, before, i);
        assert(events[i] == before[i]);
        assert(l.stage == stage_of(events.last()));
    } else {
        assert(events[i] == events.last());
        match events[i] {
            Event::Bootstrap(_, launch_args) => {
                game_is_given_all_arguments(l, launch_args);
                if launch_args is None {
                    assert(end.plan.args =~= end.plan.args.take(launch.arguments.len() as int));
                }
            },
            _ => {},
        }
    }
}

/// Whether a launch has the directory and the name of this program.
pub open spec fn names_program(l: Launch, p: Seq<char>) -> bool {
    let style = if l.unix {
        PathStyle::Unix
    } else {
        PathStyle::Windows
    };
    &&& path::parent_in(style, p) == Some(l.dir)
    &&& match path::file_name_in(style, p) {
        Some(name) => l.exe_filename == name,
        None => l.exe_filename.len() == 0,
    }
}

/// An online game is started with the environment of its session, the offer and both tokens.
pub proof fn online_game_has_both_tokens(launch: Launch, events: Seq<Event>, i: int, token: Seq<char>)
    requires
        events.len() > 0,
        run(launch, events) is Some,
        launch.mode is Online,
        events.last() == Event::ShortToken(token),
        0 <= i < events.len() - 1,
        events[i] is User,
    ensures
        ({
            let l = run(launch, events).unwrap();
            let session = events[i]->User_0;
            &&& l.stage == LaunchStage::Spawned
            &&& l.plan.env == environment::game_env(
                session,
                session.player_name.unwrap()@,
                l.access_token,
                l.content_id,
                launch.mode,
                token,
            )
        }),
{
    let before = events.drop_last();
    assert(before[i] == events[i]);
    launch_moves_forward(launch, before);
    launch_keeps_what_it_was_told(launch, before, i);
}

} // verus!
