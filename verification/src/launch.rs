//! Cover art, the switch of the auto-login account, and the start of the
//! client and of a title under a chosen account.
//!
//! The client keeps the name of the account for its automatic login, and
//! whether it remembers the password, in two registers. The functions here
//! take the name that the first register holds and say what has to be written
//! and started; the caller reads the register, writes, and runs the restart.
use vstd::prelude::*;
use vstd::string::StringExecFns;
use crate::data::{SteamAccount, Thumbnail};
use crate::encoding::{utf16, wide_string};
use crate::error::LoginError;
use crate::restart::{texts_view, Phase, Restart, RestartView};
use crate::steam::SteamModel;
use crate::text::{decimal, decimal_text, join_path, joined, same_text};

verus! {

/// Which of the four art files of a title are there.
#[derive(Debug, Clone, Copy, PartialEq, Eq, Structural)]
pub struct ArtProbe {
    pub portrait_jpg: bool,
    pub portrait_png: bool,
    pub landscape_jpg: bool,
    pub landscape_png: bool,
}

/// The directory of the art files under the install directory `root`.
pub open spec fn art_directory(root: Seq<char>) -> Seq<char> {
    joined(joined(root, "appcache"@), "librarycache"@)
}

/// The art file of the title `id` with the name ending `suffix`, which
/// holds the kind of picture and the extension.
pub open spec fn art_location(root: Seq<char>, id: i32, suffix: Seq<char>) -> Seq<char> {
    joined(art_directory(root), decimal_text(id as int) + suffix)
}

/// The art of a title: for each kind of picture the `jpg` file where it is
/// there, else the `png` file where that is there, else nothing.
pub open spec fn chosen_art(root: Seq<char>, id: i32, probe: ArtProbe) -> (
    Option<Seq<char>>,
    Option<Seq<char>>,
) {
    (
        if probe.portrait_jpg {
            Some(art_location(root, id, "_library_600x900.jpg"@))
        } else if probe.portrait_png {
            Some(art_location(root, id, "_library_600x900.png"@))
        } else {
            None
        },
        if probe.landscape_jpg {
            Some(art_location(root, id, "_header.jpg"@))
        } else if probe.landscape_png {
            Some(art_location(root, id, "_header.png"@))
        } else {
            None
        },
    )
}

/// What a piece of art means.
pub open spec fn art_view(art: Option<String>) -> Option<Seq<char>> {
    match art {
        Some(path) => Some(path@),
        None => None,
    }
}

/// What has to be written to switch the auto-login account.
#[derive(Debug, Clone, PartialEq, Eq)]
pub struct LoginUpdate {
    /// The account's name in UTF-16, for the register of the auto-login user.
    pub auto_login_user: Vec<u16>,
    /// The value for the register that makes the client remember the
    /// password: always 1, so that the client does not ask on its next start.
    pub remember_password: u32,
}

/// What has to be done to log in or to start a title.
#[derive(Debug, Clone, PartialEq, Eq)]
pub enum Launch {
    /// Nothing: the account is logged in already.
    Nothing,
    /// Start the client with these arguments; it runs under the right
    /// account, so there is nothing to write and nothing to wait for. Then
    /// end the host program where `exit_after` says so.
    Spawn { program: String, args: Vec<String>, exit_after: bool },
    /// Write the update, then run the restart.
    Restart { update: LoginUpdate, restart: Restart },
}

/// The arguments that start the title `id`.
pub open spec fn launch_args(id: i32) -> Seq<Seq<char>> {
    seq!["-applaunch"@, decimal_text(id as int)]
}

/// The client's executable under the install directory `root`.
pub open spec fn client_location(root: Seq<char>) -> Seq<char> {
    joined(root, "steam.exe"@)
}

/// How often a restart looks again for a client that was asked to exit
/// before it gives up: once a second for ten minutes.
pub const SHUTDOWN_POLLS: u32 = 600;

impl SteamModel {
    /// The path of an art file; see [`art_location`].
    pub fn art_path(&self, appid: i32, suffix: &str) -> (r: String)
        ensures
            r@ == art_location(self@.install_path, appid, suffix@),
    {
        let appcache = join_path(self.install_path.as_str(), "appcache");
        let directory = join_path(appcache.as_str(), "librarycache");
        let name = decimal(appid as i64).concat(suffix);
        join_path(directory.as_str(), name.as_str())
    }

    /// The four art files whose presence [`SteamModel::game_thumbnail`] asks
    /// for: the portrait as `jpg` and as `png`, then the landscape picture as
    /// `jpg` and as `png`.
    pub fn thumbnail_candidates(&self, appid: i32) -> (r: [String; 4])
        ensures
            r@[0]@ == art_location(self@.install_path, appid, "_library_600x900.jpg"@),
            r@[1]@ == art_location(self@.install_path, appid, "_library_600x900.png"@),
            r@[2]@ == art_location(self@.install_path, appid, "_header.jpg"@),
            r@[3]@ == art_location(self@.install_path, appid, "_header.png"@),
    {
        [
            self.art_path(appid, "_library_600x900.jpg"),
            self.art_path(appid, "_library_600x900.png"),
            self.art_path(appid, "_header.jpg"),
            self.art_path(appid, "_header.png"),
        ]
    }

    /// The art of the title `appid`, given which of its files are there; see
    /// [`chosen_art`]. Art is optional: where no file is there, both pictures
    /// are `None`.
    pub fn game_thumbnail(&self, appid: &i32, probe: &ArtProbe) -> (r: Thumbnail)
        ensures
            (art_view(r.portrait), art_view(r.landscape)) == chosen_art(
                self@.install_path,
                *appid,
                *probe,
            ),
            !probe.portrait_jpg && !probe.portrait_png ==> r.portrait is None,
            !probe.landscape_jpg && !probe.landscape_png ==> r.landscape is None,
    {
        let portrait = if probe.portrait_jpg {
            Some(self.art_path(*appid, "_library_600x900.jpg"))
        } else if probe.portrait_png {
            Some(self.art_path(*appid, "_library_600x900.png"))
        } else {
            None
        };
        let landscape = if probe.landscape_jpg {
            Some(self.art_path(*appid, "_header.jpg"))
        } else if probe.landscape_png {
            Some(self.art_path(*appid, "_header.png"))
        } else {
            None
        };
        Thumbnail { portrait, landscape }
    }

    /// What has to be written to make `account` the auto-login account,
    /// where `auto_login_user` is the name that the register holds now.
    ///
    /// Fails with `AlreadyLoggedIn` exactly where the register holds the
    /// account's name already, and else with another error exactly where the
    /// name holds a nul character, which no register string can hold.
    pub fn set_login_account(&self, account: &SteamAccount, auto_login_user: &str) -> (r: Result<
        LoginUpdate,
        LoginError,
    >)
        ensures
            match r {
                Ok(update) => auto_login_user@ != account@.name && !account@.name.contains('\0')
                    && update.auto_login_user@ == utf16(account@.name) && update.remember_password
                    == 1,
                Err(LoginError::AlreadyLoggedIn) => auto_login_user@ == account@.name,
                Err(LoginError::Other(text)) => auto_login_user@ != account@.name
                    && account@.name.contains('\0') && text@
                    == "Account name holds a nul character"@,
            },
    {
        if same_text(auto_login_user, account.name()) {
            return Err(LoginError::AlreadyLoggedIn);
        }
        match wide_string(account.name()) {
            Some(units) => Ok(LoginUpdate { auto_login_user: units, remember_password: 1 }),
            None => Err(LoginError::Other("Account name holds a nul character".to_owned())),
        }
    }

    /// The path of the client's executable; see [`client_location`].
    pub fn client_path(&self) -> (r: String)
        ensures
            r@ == client_location(self@.install_path),
    {
        join_path(self.install_path.as_str(), "steam.exe")
    }

    /// A restart of the client with `args`, or with no arguments where there
    /// are none, that ends the host program afterwards where `exit_after`
    /// says so. It has not begun, and gives up after [`SHUTDOWN_POLLS`]
    /// further looks that find the client still running.
    pub fn restart(&self, args: Option<Vec<String>>, exit_after: bool) -> (r: Restart)
        ensures
            r@ == (RestartView {
                program: client_location(self@.install_path),
                args: match args {
                    Some(list) => texts_view(list@),
                    None => Seq::empty(),
                },
                exit_after,
                polls_left: SHUTDOWN_POLLS,
                phase: Phase::Probing,
            }),
    {
        let list = match args {
            Some(list) => list,
            None => {
                let empty: Vec<String> = Vec::new();
                assert(texts_view(empty@) =~= Seq::empty());
                empty
            },
        };
        Restart::new(self.client_path(), list, exit_after, SHUTDOWN_POLLS)
    }

    /// A restart of the client with `args` that leaves the host program
    /// running; see [`SteamModel::restart`].
    pub fn run(&self, args: Option<Vec<String>>) -> (r: Restart)
        ensures
            r@ == (RestartView {
                program: client_location(self@.install_path),
                args: match args {
                    Some(list) => texts_view(list@),
                    None => Seq::empty(),
                },
                exit_after: false,
                polls_left: SHUTDOWN_POLLS,
                phase: Phase::Probing,
            }),
    {
        self.restart(args, false)
    }

    /// What has to be done to log in as `account`, where `auto_login_user`
    /// is the name that the register holds now.
    ///
    /// Where the account is logged in already, nothing: that is no failure.
    /// Else the registers are written and the client is restarted without
    /// arguments. Fails exactly where the name cannot be written.
    pub fn login(&self, account: &SteamAccount, exit_after: bool, auto_login_user: &str) -> (r:
        Result<Launch, LoginError>)
        ensures
            match r {
                Ok(Launch::Nothing) => auto_login_user@ == account@.name,
                Ok(Launch::Restart { update, restart }) => {
                    &&& auto_login_user@ != account@.name
                    &&& !account@.name.contains('\0')
                    &&& update.auto_login_user@ == utf16(account@.name)
                    &&& update.remember_password == 1
                    &&& restart@ == (RestartView {
                        program: client_location(self@.install_path),
                        args: Seq::empty(),
                        exit_after,
                        polls_left: SHUTDOWN_POLLS,
                        phase: Phase::Probing,
                    })
                },
                Ok(Launch::Spawn { .. }) => false,
                Err(LoginError::Other(text)) => auto_login_user@ != account@.name
                    && account@.name.contains('\0') && text@
                    == "Account name holds a nul character"@,
                Err(LoginError::AlreadyLoggedIn) => false,
            },
    {
        match self.set_login_account(account, auto_login_user) {
            Ok(update) => Ok(Launch::Restart { update, restart: self.restart(None, exit_after) }),
            Err(LoginError::AlreadyLoggedIn) => Ok(Launch::Nothing),
            Err(e) => Err(e),
        }
    }

    /// What has to be done to start the title `appid` under `account`, where
    /// `auto_login_user` is the name that the register holds now.
    ///
    /// Where the account is logged in already, the client is started
    /// directly with the arguments that start the title. Else the registers
    /// are written and the client is restarted with those arguments. Either
    /// way the host program ends afterwards where `close_after` says so.
    /// Fails exactly where the name cannot be written.
    pub fn launch_game(
        &self,
        account: &SteamAccount,
        appid: &i32,
        close_after: bool,
        auto_login_user: &str,
    ) -> (r: Result<Launch, LoginError>)
        ensures
            match r {
                Ok(Launch::Spawn { program, args, exit_after }) => {
                    &&& auto_login_user@ == account@.name
                    &&& program@ == client_location(self@.install_path)
                    &&& texts_view(args@) == launch_args(*appid)
                    &&& exit_after == close_after
                },
                Ok(Launch::Restart { update, restart }) => {
                    &&& auto_login_user@ != account@.name
                    &&& !account@.name.contains('\0')
                    &&& update.auto_login_user@ == utf16(account@.name)
                    &&& update.remember_password == 1
                    &&& restart@ == (RestartView {
                        program: client_location(self@.install_path),
                        args: launch_args(*appid),
                        exit_after: close_after,
                        polls_left: SHUTDOWN_POLLS,
                        phase: Phase::Probing,
                    })
                },
                Ok(Launch::Nothing) => false,
                Err(LoginError::Other(text)) => auto_login_user@ != account@.name
                    && account@.name.contains('\0') && text@
                    == "Account name holds a nul character"@,
                Err(LoginError::AlreadyLoggedIn) => false,
            },
    {
        let mut args: Vec<String> = Vec::new();
        args.push("-applaunch".to_owned());
        args.push(decimal(*appid as i64));
        assert(texts_view(args@) =~= launch_args(*appid));
        match self.set_login_account(account, auto_login_user) {
            Ok(update) => Ok(
                Launch::Restart { update, restart: self.restart(Some(args), close_after) },
            ),
            Err(LoginError::AlreadyLoggedIn) => Ok(
                Launch::Spawn { program: self.client_path(), args, exit_after: close_after },
            ),
            Err(e) => Err(e),
        }
    }
}

} // verus!
