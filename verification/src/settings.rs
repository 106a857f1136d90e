//! Where the queue lives, and the name under which the daemon is reached.
use interprocess::local_socket::{
    GenericFilePath, GenericNamespaced, Name, NameType, ToFsName, ToNsName,
};
use vstd::prelude::*;

use crate::paths;
use crate::paths::join_path;
use crate::text;

verus! {

/// Resolved filesystem locations and the local-socket name used by msc.
///
/// Everything lives under a single data directory.
#[derive(Debug)]
pub struct Settings {
    pub data_dir: String,
    pub state_file: String,
    pub log_dir: String,
    /// Name used for the namespaced socket (Linux abstract socket / Windows named pipe).
    pub socket_ns: String,
    /// Filesystem path used when namespaced sockets are not supported (e.g. macOS).
    pub socket_fs: String,
}

/// Settings, as a mathematical value.
#[verifier::ext_equal]
pub struct SettingsView {
    pub data_dir: Seq<char>,
    pub state_file: Seq<char>,
    pub log_dir: Seq<char>,
    pub socket_ns: Seq<char>,
    pub socket_fs: Seq<char>,
}

impl View for Settings {
    type V = SettingsView;

    open spec fn view(&self) -> SettingsView {
        SettingsView {
            data_dir: self.data_dir@,
            state_file: self.state_file@,
            log_dir: self.log_dir@,
            socket_ns: self.socket_ns@,
            socket_fs: self.socket_fs@,
        }
    }
}

impl Clone for Settings {
    fn clone(&self) -> (r: Self)
        ensures
            r@ == self@,
    {
        Settings {
            data_dir: self.data_dir.clone(),
            state_file: self.state_file.clone(),
            log_dir: self.log_dir.clone(),
            socket_ns: self.socket_ns.clone(),
            socket_fs: self.socket_fs.clone(),
        }
    }
}

/// The user whose queue it is: by either name that the environment gives, in
/// turn.
pub open spec fn user_name(user: Option<Seq<char>>, username: Option<Seq<char>>) -> Seq<char> {
    match (user, username) {
        (Some(name), _) => name,
        (None, Some(name)) => name,
        (None, None) => "default"@,
    }
}

/// The name of a user's socket.
pub open spec fn socket_file(user: Seq<char>) -> Seq<char> {
    "mochi-"@ + user + ".sock"@
}

/// Two users never share a socket name.
pub proof fn law_socket_names_are_per_user(a: Seq<char>, b: Seq<char>)
    requires
        socket_file(a) == socket_file(b),
    ensures
        a == b,
{
    let (front, back) = ("mochi-"@, ".sock"@);
    assert(socket_file(a).len() == front.len() + a.len() + back.len());
    assert(socket_file(b).len() == front.len() + b.len() + back.len());
    assert(socket_file(a).subrange(front.len() as int, (front.len() + a.len()) as int) == a);
    assert(socket_file(b).subrange(front.len() as int, (front.len() + b.len()) as int) == b);
}

/// The settings for a data directory and a user.
pub open spec fn settings_for(data_dir: Seq<char>, user: Seq<char>) -> SettingsView {
    SettingsView {
        data_dir,
        state_file: paths::joined_path(data_dir, "state.json"@),
        log_dir: paths::joined_path(data_dir, "logs"@),
        socket_ns: socket_file(user),
        socket_fs: paths::joined_path(data_dir, socket_file(user)),
    }
}

/// Why the settings could not be worked out.
#[derive(Debug, Clone, Copy, PartialEq, Eq, Structural)]
pub enum SettingsError {
    /// Neither the environment nor the platform gives a data directory.
    NoHome,
}

impl SettingsError {
    pub open spec fn text(self) -> Seq<char> {
        "could not determine a home directory for mochi"@
    }

    /// What is wrong, in words.
    pub fn message(&self) -> (r: &'static str)
        ensures
            r@ == self.text(),
    {
        "could not determine a home directory for mochi"
    }
}

/// Asks `interprocess` (`GenericNamespaced::is_supported`) whether sockets can
/// have names outside the filesystem. On every platform the answer is yes.
#[verifier::external_body]
fn namespaced_supported() -> (r: bool)
    ensures
        r,
{
    GenericNamespaced::is_supported()
}

/// `interprocess::local_socket::Name`, the address of a local socket.
#[verifier::external_type_specification]
#[verifier::external_body]
pub struct ExName<'s>(interprocess::local_socket::Name<'s>);

/// `std::io::Error`.
#[verifier::external_type_specification]
#[verifier::external_body]
pub struct ExIoError(std::io::Error);

/// The address that `interprocess` makes of a name outside the filesystem, on
/// the platform that the library is compiled for; none where it refuses the
/// name.
pub uninterp spec fn namespaced_address(name: Seq<char>) -> Option<Name<'static>>;

/// Whether a text holds no zero character.
pub open spec fn no_zero(s: Seq<char>) -> bool {
    forall|i: int| 0 <= i < s.len() ==> #[trigger] s[i] != '\0'
}

/// Calls `ToNsName::to_ns_name` for `GenericNamespaced`. It makes
/// `namespaced_address` of the name, or fails where there is none. It makes one
/// of every name without a zero character.
#[verifier::external_body]
fn to_namespaced(name: &str) -> (r: Result<Name<'_>, std::io::Error>)
    ensures
        match r {
            Ok(address) => namespaced_address(name@) == Some(address),
            Err(_) => namespaced_address(name@) is None,
        },
        no_zero(name@) ==> r is Ok,
{
    name.to_ns_name::<GenericNamespaced>()
}

/// The address that `interprocess` makes of a path, on the platform that the
/// library is compiled for; none where it refuses the path.
pub uninterp spec fn path_address(path: Seq<char>) -> Option<Name<'static>>;

/// Whether a text starts with two backslashes.
pub open spec fn starts_with_two_backslashes(s: Seq<char>) -> bool {
    s.len() >= 2 && s[0] == '\\' && s[1] == '\\'
}

/// Calls `ToFsName::to_fs_name` for `GenericFilePath`. It makes `path_address`
/// of the path, or fails where there is none. On Windows it can panic on a path
/// that starts with two backslashes, so none of those is handed to it.
#[verifier::external_body]
fn to_path(path: &str) -> (r: Result<Name<'_>, std::io::Error>)
    requires
        !starts_with_two_backslashes(path@),
    ensures
        match r {
            Ok(address) => path_address(path@) == Some(address),
            Err(_) => path_address(path@) is None,
        },
{
    path.to_fs_name::<GenericFilePath>()
}

/// Why the daemon has no address.
#[derive(Debug)]
pub struct SocketNameError {
    pub cause: std::io::Error,
}

impl SocketNameError {
    pub open spec fn text(self) -> Seq<char> {
        "Cannot get the socket name"@
    }

    /// What is wrong, in words.
    pub fn message(&self) -> (r: &'static str)
        ensures
            r@ == self.text(),
    {
        "Cannot get the socket name"
    }
}

impl Settings {
    /// Work out the settings. The data directory is the override (`home`) if
    /// there is one, else the one that the platform gives (`platform_dir`). The
    /// socket name is per-user so multiple accounts on one machine do not
    /// collide (Windows named pipes share a global namespace).
    pub fn resolve(
        home: Option<String>,
        platform_dir: Option<String>,
        user: Option<String>,
        username: Option<String>,
    ) -> (r: Result<Settings, SettingsError>)
        ensures
            ({
                let name = user_name(user.deep_view(), username.deep_view());
                match (home, platform_dir) {
                    (Some(dir), _) => r matches Ok(s) && s@ == settings_for(dir@, name),
                    (None, Some(dir)) => r matches Ok(s) && s@ == settings_for(dir@, name),
                    (None, None) => r matches Err(e) && e == SettingsError::NoHome,
                }
            }),
    {
        let data_dir = match (home, platform_dir) {
            (Some(dir), _) => dir,
            (None, Some(dir)) => dir,
            (None, None) => return Err(SettingsError::NoHome),
        };
        let name = match (user, username) {
            (Some(name), _) => name,
            (None, Some(name)) => name,
            (None, None) => "default".to_owned(),
        };
        let mut socket_ns = text::concat("mochi-", name.as_str());
        socket_ns.append(".sock");
        Ok(
            Settings {
                state_file: join_path(data_dir.as_str(), "state.json"),
                log_dir: join_path(data_dir.as_str(), "logs"),
                socket_fs: join_path(data_dir.as_str(), socket_ns.as_str()),
                socket_ns,
                data_dir,
            },
        )
    }

    /// The name of the socket, for messages, where namespaced sockets are
    /// supported or not.
    pub fn socket_display(&self, namespaced: bool) -> (r: &str)
        ensures
            r@ == (if namespaced {
                self@.socket_ns
            } else {
                self@.socket_fs
            }),
    {
        if namespaced {
            self.socket_ns.as_str()
        } else {
            self.socket_fs.as_str()
        }
    }

    /// The address of the socket, where namespaced sockets are supported or not.
    pub fn socket_address(&self, namespaced: bool) -> (r: Result<Name<'_>, SocketNameError>)
        requires
            !namespaced ==> !starts_with_two_backslashes(self@.socket_fs),
        ensures
            ({
                let address = if namespaced {
                    namespaced_address(self@.socket_ns)
                } else {
                    path_address(self@.socket_fs)
                };
                match r {
                    Ok(name) => address == Some(name),
                    Err(_) => address is None,
                }
            }),
            namespaced && no_zero(self@.socket_ns) ==> r is Ok,
    {
        let made = if namespaced {
            to_namespaced(self.socket_ns.as_str())
        } else {
            to_path(self.socket_fs.as_str())
        };
        match made {
            Ok(name) => Ok(name),
            Err(cause) => Err(SocketNameError { cause }),
        }
    }

    /// The address that the daemon listens on.
    pub fn socket_name(&self) -> (r: Result<Name<'_>, SocketNameError>)
        ensures
            match r {
                Ok(name) => namespaced_address(self@.socket_ns) == Some(name),
                Err(_) => namespaced_address(self@.socket_ns) is None,
            },
            no_zero(self@.socket_ns) ==> r is Ok,
    {
        self.socket_address(namespaced_supported())
    }

    /// The name of the socket, for messages.
    pub fn socket_name_display(&self) -> (r: &str)
        ensures
            r@ == self@.socket_ns,
    {
        self.socket_display(namespaced_supported())
    }
}

/// The user is the one that `USER` gives, else the one that `USERNAME` gives, else a
/// name that stands for nobody.
pub proof fn law_users_are_known_by_either_name(user: Option<Seq<char>>, username: Option<
    Seq<char>,
>)
    ensures
        user matches Some(name) ==> user_name(user, username) == name,
        user is None ==> (username matches Some(name) ==> user_name(user, username) == name),
        user is None && username is None ==> user_name(user, username) == "default"@,
{
}

/// Everything lives in the data directory, and the socket is named after the user.
pub proof fn law_everything_lives_in_the_data_directory(dir: Seq<char>, user: Seq<char>)
    ensures
        settings_for(dir, user).data_dir == dir,
        settings_for(dir, user).state_file == paths::joined_path(dir, "state.json"@),
        settings_for(dir, user).log_dir == paths::joined_path(dir, "logs"@),
        settings_for(dir, user).socket_ns == "mochi-"@ + user + ".sock"@,
        settings_for(dir, user).socket_fs == paths::joined_path(
            dir,
            settings_for(dir, user).socket_ns,
        ),
{
}

/// The directory that is named wins over the one that the platform gives; without
/// either there are no settings. The socket is named after the user.
pub proof fn law_settings_go_by_the_named_directory(
    home: Option<String>,
    platform_dir: Option<String>,
    user: Option<String>,
    username: Option<String>,
    r: Result<Settings, SettingsError>,
)
    requires
        Settings::resolve.ensures((home, platform_dir, user, username), r),
    ensures
        r is Err <==> home is None && platform_dir is None,
        r matches Ok(s) ==> (home matches Some(dir) ==> s.data_dir@ == dir@),
        r matches Ok(s) ==> (home is None ==> s.data_dir@ == platform_dir->0@),
        r matches Ok(s) ==> (user matches Some(name) ==> s.socket_ns@ == "mochi-"@ + name@
            + ".sock"@),
        r matches Ok(s) ==> (user is None ==> (username matches Some(name) ==> s.socket_ns@
            == "mochi-"@ + name@ + ".sock"@)),
        r matches Ok(s) ==> s.state_file@ == paths::joined_path(s.data_dir@, "state.json"@)
            && s.log_dir@ == paths::joined_path(s.data_dir@, "logs"@),
{
    if let Ok(s) = r {
        assert(s@.data_dir == s.data_dir@ && s@.socket_ns == s.socket_ns@);
        assert(s@.state_file == s.state_file@ && s@.log_dir == s.log_dir@);
    }
}

} // verus!
