//! Where things lie on the disk.
//!
//! A place is named by a directory and the names that lead on from there; how names are put together
//! into a path is a matter of the system.
use vstd::prelude::*;
use crate::text;

verus! {

/// A place below a directory.
#[derive(Debug)]
pub struct Place {
    /// The directory.
    pub base: String,
    /// The names that lead on from there.
    pub names: Vec<String>,
}

/// What a place is: its directory and the names that lead on.
pub type PlaceV = (Seq<char>, Seq<Seq<char>>);

impl View for Place {
    type V = PlaceV;

    open spec fn view(&self) -> PlaceV {
        (self.base@, text::views(self.names@))
    }
}

/// What an optional place is.
pub open spec fn opt_place(p: Option<Place>) -> Option<PlaceV> {
    match p {
        Some(p) => Some(p@),
        None => None,
    }
}

impl Place {
    /// A directory itself.
    pub fn at(base: &str) -> (r: Place)
        ensures
            r@ == (base@, Seq::<Seq<char>>::empty()),
    {
        let r = Place { base: base.to_owned(), names: Vec::new() };
        assert(text::views(r.names@) =~= Seq::<Seq<char>>::empty());
        r
    }

    /// The place one name further.
    pub fn join(self, name: &str) -> (r: Place)
        ensures
            r@ == (self@.0, self@.1.push(name@)),
    {
        let ghost before = text::views(self.names@);
        let mut names = self.names;
        names.push(name.to_owned());
        assert(text::views(names@) =~= before.push(name@));
        Place { base: self.base, names }
    }
}

/// Where the directory of the program is.
#[derive(Debug, Clone, Copy, PartialEq, Eq, Structural)]
pub enum RootChoice {
    /// The directory of the program file.
    ExeDir,
    /// The directory above it.
    ExeParent,
    /// The working directory.
    WorkingDir,
}

/// What is known of the directory in which the program file lies.
pub struct ExeDir {
    pub has_bin: bool,
    pub has_web: bool,
    /// Its own name, if it has one.
    pub name: Option<String>,
    pub has_parent: bool,
}

/// Whether a directory is called `bin`, in any case.
pub open spec fn called_bin(name: Option<Seq<char>>) -> bool {
    match name {
        Some(n) => text::lowered(n) == "bin"@,
        None => false,
    }
}

/// Where the directory of the program is. It goes by the program file, not by the working directory:
/// a double click on the file in `bin` would else look for the settings in the wrong place.
pub open spec fn root_of(exe: Option<ExeDir>) -> RootChoice {
    match exe {
        Some(dir) => if dir.has_bin && dir.has_web {
            RootChoice::ExeDir
        } else if called_bin(text::opt_view(dir.name)) && dir.has_parent {
            RootChoice::ExeParent
        } else {
            RootChoice::WorkingDir
        },
        None => RootChoice::WorkingDir,
    }
}

/// Where the directory of the program is.
pub fn app_root(exe: &Option<ExeDir>) -> (r: RootChoice)
    ensures
        r == root_of(*exe),
{
    match exe {
        Some(dir) => {
            if dir.has_bin && dir.has_web {
                return RootChoice::ExeDir;
            }
            let bin = match &dir.name {
                Some(name) => {
                    let low = text::to_lower(name.as_str());
                    text::same(low.as_str(), "bin")
                },
                None => false,
            };
            if bin && dir.has_parent {
                RootChoice::ExeParent
            } else {
                RootChoice::WorkingDir
            }
        },
        None => RootChoice::WorkingDir,
    }
}

/// The directory of the settings.
pub fn config_dir(root: &str) -> (r: Place)
    ensures
        r@ == (root@, seq!["config"@]),
{
    let r = Place::at(root).join("config");
    assert(r@.1 =~= seq!["config"@]);
    r
}

/// The directory of the logs.
pub fn logs_dir(root: &str) -> (r: Place)
    ensures
        r@ == (root@, seq!["logs"@]),
{
    let r = Place::at(root).join("logs");
    assert(r@.1 =~= seq!["logs"@]);
    r
}

/// The directory of the panel.
pub fn web_dir(root: &str) -> (r: Place)
    ensures
        r@ == (root@, seq!["web"@]),
{
    let r = Place::at(root).join("web");
    assert(r@.1 =~= seq!["web"@]);
    r
}

/// The directory of the programs.
pub fn bin_dir(root: &str) -> (r: Place)
    ensures
        r@ == (root@, seq!["bin"@]),
{
    let r = Place::at(root).join("bin");
    assert(r@.1 =~= seq!["bin"@]);
    r
}

/// The directory of the secrets.
pub fn secrets_dir(root: &str) -> (r: Place)
    ensures
        r@ == (root@, seq!["config"@, "secrets"@]),
{
    let r = config_dir(root).join("secrets");
    assert(r@.1 =~= seq!["config"@, "secrets"@]);
    r
}

/// The directories that have to exist.
pub fn needed_dirs(root: &str) -> (r: Vec<Place>)
    ensures
        r@.map_values(|p: Place| p@) == seq![
            (root@, seq!["config"@]),
            (root@, seq!["logs"@]),
            (root@, seq!["web"@]),
            (root@, seq!["bin"@]),
            (root@, seq!["config"@, "secrets"@]),
        ],
{
    let mut out: Vec<Place> = Vec::new();
    out.push(config_dir(root));
    out.push(logs_dir(root));
    out.push(web_dir(root));
    out.push(bin_dir(root));
    out.push(secrets_dir(root));
    assert(out@.map_values(|p: Place| p@) =~= seq![
        (root@, seq!["config"@]),
        (root@, seq!["logs"@]),
        (root@, seq!["web"@]),
        (root@, seq!["bin"@]),
        (root@, seq!["config"@, "secrets"@]),
    ]);
    out
}

/// The file of the source roles. It is neither a secret nor a matter of the connection, but the
/// owner's choice, which they may want to read and change by hand.
pub fn roles_path(root: &str) -> (r: Place)
    ensures
        r@ == (root@, seq!["config"@, "roles.json"@]),
{
    let r = config_dir(root).join("roles.json");
    assert(r@.1 =~= seq!["config"@, "roles.json"@]);
    r
}

/// The directory of the installers.
pub fn installers_dir(root: &str) -> (r: Place)
    ensures
        r@ == (root@, seq!["third_party"@, "installers"@]),
{
    let r = Place::at(root).join("third_party").join("installers");
    assert(r@.1 =~= seq!["third_party"@, "installers"@]);
    r
}

/// The file of a secret.
pub fn secret_path(root: &str, name: &str) -> (r: Place)
    ensures
        r@ == (root@, seq!["config"@, "secrets"@, name@ + ".dpapi"@]),
{
    let file = text::join2(name, ".dpapi");
    let r = secrets_dir(root).join(file.as_str());
    assert(r@.1 =~= seq!["config"@, "secrets"@, name@ + ".dpapi"@]);
    r
}

/// The directory whose programs start at logon.
pub fn startup_dir(appdata: Option<&str>) -> (r: Option<Place>)
    ensures
        opt_place(r) == (match appdata {
            Some(base) => Some(
                (base@, seq!["Microsoft\\Windows\\Start Menu\\Programs\\Startup"@]),
            ),
            None => None,
        }),
{
    match appdata {
        Some(base) => {
            let r = Place::at(base).join("Microsoft\\Windows\\Start Menu\\Programs\\Startup");
            assert(r@.1 =~= seq!["Microsoft\\Windows\\Start Menu\\Programs\\Startup"@]);
            Some(r)
        },
        None => None,
    }
}

/// The shortcut by which the agent starts at logon.
pub fn autostart_shortcut(appdata: Option<&str>) -> (r: Option<Place>)
    ensures
        opt_place(r) == (match appdata {
            Some(base) => Some(
                (
                    base@,
                    seq![
                        "Microsoft\\Windows\\Start Menu\\Programs\\Startup"@,
                        "Accessible OBS.lnk"@,
                    ],
                ),
            ),
            None => None,
        }),
{
    match startup_dir(appdata) {
        Some(dir) => {
            let r = dir.join("Accessible OBS.lnk");
            assert(r@.1 =~= seq![
                "Microsoft\\Windows\\Start Menu\\Programs\\Startup"@,
                "Accessible OBS.lnk"@,
            ]);
            Some(r)
        },
        None => None,
    }
}

/// The shortcut of the name that the program had before.
pub fn legacy_autostart_shortcut(appdata: Option<&str>) -> (r: Option<Place>)
    ensures
        opt_place(r) == (match appdata {
            Some(base) => Some(
                (
                    base@,
                    seq![
                        "Microsoft\\Windows\\Start Menu\\Programs\\Startup"@,
                        "Remote Stream Control.lnk"@,
                    ],
                ),
            ),
            None => None,
        }),
{
    match startup_dir(appdata) {
        Some(dir) => {
            let r = dir.join("Remote Stream Control.lnk");
            assert(r@.1 =~= seq![
                "Microsoft\\Windows\\Start Menu\\Programs\\Startup"@,
                "Remote Stream Control.lnk"@,
            ]);
            Some(r)
        },
        None => None,
    }
}

/// The file of the settings of obs-websocket. Since version 28 of OBS they lie here.
pub fn obs_websocket_config_path(appdata: Option<&str>) -> (r: Result<Place, String>)
    ensures
        match (appdata, r) {
            (Some(base), Ok(p)) => p@ == (
                base@,
                seq!["obs-studio"@, "plugin_config"@, "obs-websocket"@, "config.json"@],
            ),
            (None, Err(e)) => e@ == "переменная APPDATA не задана"@,
            _ => false,
        },
{
    match appdata {
        Some(base) => {
            let r = Place::at(base).join("obs-studio").join("plugin_config").join(
                "obs-websocket",
            ).join("config.json");
            assert(r@.1 =~= seq![
                "obs-studio"@,
                "plugin_config"@,
                "obs-websocket"@,
                "config.json"@,
            ]);
            Ok(r)
        },
        None => Err("переменная APPDATA не задана".to_owned()),
    }
}

/// The directory in which OBS leaves a mark for each run.
pub fn obs_sentinel_dir(appdata: &str) -> (r: Place)
    ensures
        r@ == (appdata@, seq!["obs-studio"@, ".sentinel"@]),
{
    let r = Place::at(appdata).join("obs-studio").join(".sentinel");
    assert(r@.1 =~= seq!["obs-studio"@, ".sentinel"@]);
    r
}

/// The desktop of a user: the one in OneDrive where there is one.
pub fn desktop_dir(profile: Option<&str>, onedrive_exists: bool) -> (r: Option<Place>)
    ensures
        opt_place(r) == (match profile {
            Some(base) => Some(
                (
                    base@,
                    if onedrive_exists {
                        seq!["OneDrive"@, "Desktop"@]
                    } else {
                        seq!["Desktop"@]
                    },
                ),
            ),
            None => None,
        }),
{
    match profile {
        Some(base) => {
            if onedrive_exists {
                let r = Place::at(base).join("OneDrive").join("Desktop");
                assert(r@.1 =~= seq!["OneDrive"@, "Desktop"@]);
                Some(r)
            } else {
                let r = Place::at(base).join("Desktop");
                assert(r@.1 =~= seq!["Desktop"@]);
                Some(r)
            }
        },
        None => None,
    }
}

// ---------------------------------------------------------------------------------------------
// Laws
// ---------------------------------------------------------------------------------------------
/// Secrets of different names lie in different files.
pub proof fn law_secrets_do_not_share_a_file(a: Seq<char>, b: Seq<char>)
    requires
        a + ".dpapi"@ == b + ".dpapi"@,
    ensures
        a == b,
{
    let suffix = ".dpapi"@;
    assert((a + suffix).len() == a.len() + suffix.len());
    assert((b + suffix).len() == b.len() + suffix.len());
    assert(a =~= (a + suffix).take(a.len() as int));
    assert(b =~= (b + suffix).take(b.len() as int));
}


/// The directory of the program is the one of its file where `bin` and `web` lie there; from within a
/// directory called `bin`, in any case of letters, it is the one above; else the working directory.
pub proof fn law_the_directory_goes_by_the_program_file(dir: ExeDir, name: Seq<char>)
    ensures
        dir.has_bin && dir.has_web <==> root_of(Some(dir)) == RootChoice::ExeDir,
        !(dir.has_bin && dir.has_web) && text::opt_view(dir.name) == Some(name) && text::lowered(name)
            == "bin"@ && dir.has_parent ==> root_of(Some(dir)) == RootChoice::ExeParent,
        root_of(Some(dir)) == RootChoice::ExeParent ==> dir.has_parent && dir.name is Some,
        text::opt_view(dir.name) == Some(name) && text::lowered(name) != "bin"@ ==> root_of(Some(dir))
            != RootChoice::ExeParent,
        root_of(None) == RootChoice::WorkingDir,
{
}

} // verus!
