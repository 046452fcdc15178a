//! What a launch is made of.

use vstd::prelude::*;
use crate::text;
use crate::text::cat3;

verus! {

/// Why a launch was refused.
pub enum LaunchError {
    NoOfferFound(String),
    Offline,
    GamePathOffline,
    GamePath,
    NotInstalled(String),
    BootstrapMissing,
    ContentIdAsOfferId(String),
}

/// The message for the user.
pub open spec fn launch_error_message(e: LaunchError) -> Seq<char> {
    match e {
        LaunchError::NoOfferFound(id) => "no offer was found for id `"@ + id@ + "`"@,
        LaunchError::Offline => "offline mode is not yet supported"@,
        LaunchError::GamePathOffline =>
            "game path must be specified when launching in OnlineOffline mode"@,
        LaunchError::GamePath => "game path not found"@,
        LaunchError::NotInstalled(id) => "`"@ + id@ + "` is not installed"@,
        LaunchError::BootstrapMissing => "bootstrap was not found! Please re-install maxima"@,
        LaunchError::ContentIdAsOfferId(id) => "content ID (`"@ + id@
            + "`) was specified as an offer ID when launching in OnlineOffline mode"@,
    }
}

impl LaunchError {
    /// The message for the user.
    pub fn message(&self) -> (r: String)
        ensures
            r@ == launch_error_message(*self),
    {
        match self {
            LaunchError::NoOfferFound(id) => cat3("no offer was found for id `", id.as_str(), "`"),
            LaunchError::Offline => "offline mode is not yet supported".to_owned(),
            LaunchError::GamePathOffline =>
                "game path must be specified when launching in OnlineOffline mode".to_owned(),
            LaunchError::GamePath => "game path not found".to_owned(),
            LaunchError::NotInstalled(id) => cat3("`", id.as_str(), "` is not installed"),
            LaunchError::BootstrapMissing =>
                "bootstrap was not found! Please re-install maxima".to_owned(),
            LaunchError::ContentIdAsOfferId(id) => cat3(
                "content ID (`",
                id.as_str(),
                "`) was specified as an offer ID when launching in OnlineOffline mode",
            ),
        }
    }
}

/// When a library is injected.
#[derive(Clone, Copy, PartialEq, Eq, Structural, Debug)]
pub enum StartupStage {
    Launch,
    ConnectionEstablished,
}

/// A library to inject into the game.
pub struct LibraryInjection {
    pub path: String,
    pub stage: StartupStage,
}

/// What the user asked for.
pub struct LaunchOptions {
    pub path_override: Option<String>,
    pub arguments: Vec<String>,
    pub cloud_saves: bool,
}

/// How a game is launched.
pub enum LaunchMode {
    /// Offline, with cached licenses; holds the offer ID.
    Offline(String),
    /// Online, with requests about the user and the license; holds the offer ID.
    Online(String),
    /// Online for the license alone; holds the content ID, the persona and the password.
    OnlineOffline(String, String, String),
}

/// How a game is launched, with texts.
pub ghost enum Mode {
    Offline(Seq<char>),
    Online(Seq<char>),
    OnlineOffline(Seq<char>, Seq<char>, Seq<char>),
}

impl View for LaunchMode {
    type V = Mode;

    open spec fn view(&self) -> Mode {
        match self {
            LaunchMode::Offline(id) => Mode::Offline(id@),
            LaunchMode::Online(id) => Mode::Online(id@),
            LaunchMode::OnlineOffline(id, persona, password) => Mode::OnlineOffline(
                id@,
                persona@,
                password@,
            ),
        }
    }
}

impl LaunchMode {
    /// Whether the launch is online for the license alone.
    pub fn is_online_offline(&self) -> (r: bool)
        ensures
            r == (self is OnlineOffline),
    {
        match self {
            LaunchMode::OnlineOffline(_, _, _) => true,
            _ => false,
        }
    }

    /// The ID that the mode is shown as.
    pub fn display(&self) -> (r: String)
        ensures
            r@ == (match self@ {
                Mode::Offline(id) => id,
                Mode::Online(id) => id,
                Mode::OnlineOffline(id, _, _) => id,
            }),
    {
        match self {
            LaunchMode::Offline(id) => id.clone(),
            LaunchMode::Online(id) => id.clone(),
            LaunchMode::OnlineOffline(id, _, _) => id.clone(),
        }
    }
}

/// A game that runs: `Offer` is the owned offer, `Process` the child process.
pub struct ActiveGameContext<Offer, Process> {
    launch_id: String,
    game_path: String,
    /// The name of the game's program. The processes between the launcher and the game
    /// replace each other, so that this name is the only way to find the game under Wine.
    game_exe_filename: String,
    content_id: String,
    offer: Option<Offer>,
    mode: LaunchMode,
    injections: Vec<LibraryInjection>,
    cloud_saves: bool,
    process: Process,
    started: bool,
}

/// A game that runs, with texts.
pub ghost struct ActiveGame<Offer, Process> {
    pub launch_id: Seq<char>,
    pub game_path: Seq<char>,
    pub game_exe_filename: Seq<char>,
    pub content_id: Seq<char>,
    pub offer: Option<Offer>,
    pub mode: Mode,
    pub injections: Seq<LibraryInjection>,
    pub cloud_saves: bool,
    pub process: Process,
    pub started: bool,
}

impl<Offer, Process> View for ActiveGameContext<Offer, Process> {
    type V = ActiveGame<Offer, Process>;

    closed spec fn view(&self) -> ActiveGame<Offer, Process> {
        ActiveGame {
            launch_id: self.launch_id@,
            game_path: self.game_path@,
            game_exe_filename: self.game_exe_filename@,
            content_id: self.content_id@,
            offer: self.offer,
            mode: self.mode@,
            injections: self.injections@,
            cloud_saves: self.cloud_saves,
            process: self.process,
            started: self.started,
        }
    }
}

impl<Offer, Process> ActiveGameContext<Offer, Process> {
    /// A game whose process was just started.
    pub fn new(
        launch_id: &str,
        game_path: &str,
        game_exe_filename: &str,
        cloud_saves: bool,
        content_id: &str,
        offer: Option<Offer>,
        mode: LaunchMode,
        process: Process,
    ) -> (r: Self)
        ensures
            r@ == (ActiveGame {
                launch_id: launch_id@,
                game_path: game_path@,
                game_exe_filename: game_exe_filename@,
                content_id: content_id@,
                offer,
                mode: mode@,
                injections: Seq::empty(),
                cloud_saves,
                process,
                started: false,
            }),
    {
        ActiveGameContext {
            launch_id: launch_id.to_owned(),
            game_path: game_path.to_owned(),
            game_exe_filename: game_exe_filename.to_owned(),
            content_id: content_id.to_owned(),
            offer,
            mode,
            injections: Vec::new(),
            cloud_saves,
            process,
            started: false,
        }
    }

    /// Marks the game as started.
    pub fn set_started(&mut self)
        ensures
            final(self)@ == (ActiveGame { started: true, ..old(self)@ }),
    {
        self.started = true;
    }

    /// The process of the game, to be changed.
    pub fn process_mut(&mut self) -> (r: &mut Process)
        ensures
            *r == old(self)@.process,
            final(self)@ == (ActiveGame { process: *final(r), ..old(self)@ }),
    {
        &mut self.process
    }

    pub fn launch_id(&self) -> (r: &String)
        ensures
            r@ == self@.launch_id,
    {
        &self.launch_id
    }

    pub fn game_path(&self) -> (r: &String)
        ensures
            r@ == self@.game_path,
    {
        &self.game_path
    }

    pub fn game_exe_filename(&self) -> (r: &String)
        ensures
            r@ == self@.game_exe_filename,
    {
        &self.game_exe_filename
    }

    pub fn content_id(&self) -> (r: &String)
        ensures
            r@ == self@.content_id,
    {
        &self.content_id
    }

    pub fn offer(&self) -> (r: &Option<Offer>)
        ensures
            *r == self@.offer,
    {
        &self.offer
    }

    pub fn mode(&self) -> (r: &LaunchMode)
        ensures
            r@ == self@.mode,
    {
        &self.mode
    }

    pub fn injections(&self) -> (r: &Vec<LibraryInjection>)
        ensures
            r@ == self@.injections,
    {
        &self.injections
    }

    pub fn cloud_saves(&self) -> (r: &bool)
        ensures
            *r == self@.cloud_saves,
    {
        &self.cloud_saves
    }

    pub fn process(&self) -> (r: &Process)
        ensures
            *r == self@.process,
    {
        &self.process
    }

    pub fn started(&self) -> (r: &bool)
        ensures
            *r == self@.started,
    {
        &self.started
    }
}

/// What the bootstrap program is told to start a game.
pub struct BootstrapLaunchArgs {
    pub path: String,
    pub args: Vec<String>,
}

impl Default for BootstrapLaunchArgs {
    fn default() -> (r: Self)
        ensures
            r.path@.len() == 0,
            r.args@.len() == 0,
    {
        proof {
            reveal_strlit("");
        }
        BootstrapLaunchArgs { path: "".to_owned(), args: Vec::new() }
    }
}

/// The message names what was asked for, in backquotes.
pub proof fn launch_message_names_the_id(id: String)
    ensures
        text::occurs(
            launch_error_message(LaunchError::NoOfferFound(id)),
            seq!['`'] + id@ + seq!['`'],
        ),
        text::occurs(
            launch_error_message(LaunchError::NotInstalled(id)),
            seq!['`'] + id@ + seq!['`'],
        ),
        text::occurs(
            launch_error_message(LaunchError::ContentIdAsOfferId(id)),
            seq!['`'] + id@ + seq!['`'],
        ),
{
    reveal_strlit("no offer was found for id `");
    reveal_strlit("`");
    reveal_strlit("` is not installed");
    reveal_strlit("content ID (`");
    reveal_strlit("`) was specified as an offer ID when launching in OnlineOffline mode");
    let mark = seq!['`'] + id@ + seq!['`'];
    let none = Seq::<char>::empty();
    let a = "no offer was found for id `"@.drop_last();
    assert(launch_error_message(LaunchError::NoOfferFound(id)) =~= a + mark + none);
    text::text_stands_where_it_was_put(a, mark, none);
    let b = "` is not installed"@.skip(1);
    assert(launch_error_message(LaunchError::NotInstalled(id)) =~= none + mark + b);
    text::text_stands_where_it_was_put(none, mark, b);
    let c = "content ID (`"@.drop_last();
    let d =
        "`) was specified as an offer ID when launching in OnlineOffline mode"@.skip(1);
    assert(launch_error_message(LaunchError::ContentIdAsOfferId(id)) =~= c + mark + d);
    text::text_stands_where_it_was_put(c, mark, d);
}

} // verus!
