//! Shell profiles: the shells a new terminal can start, which of them is
//! the default, and how a requested profile is found.
use vstd::prelude::*;
use crate::text::str_eq;

verus! {

/// The kind of shell a profile starts.
#[derive(Clone, Copy, Debug, PartialEq, Eq, Structural)]
pub enum ShellProfileKind {
    Unix,
    Wsl,
    Powershell,
    Cmd,
    Custom,
}

/// A shell a terminal can be started with.
#[derive(Clone, Debug)]
pub struct ShellProfile {
    pub id: String,
    pub name: String,
    pub kind: ShellProfileKind,
    pub command: String,
    pub args: Vec<String>,
    pub wsl_distro: Option<String>,
    pub is_default: bool,
    pub source: String,
}

/// The mathematical content of a profile.
pub struct ShellProfileView {
    pub id: Seq<char>,
    pub name: Seq<char>,
    pub kind: ShellProfileKind,
    pub command: Seq<char>,
    pub args: Seq<Seq<char>>,
    pub wsl_distro: Option<Seq<char>>,
    pub is_default: bool,
    pub source: Seq<char>,
}

impl View for ShellProfile {
    type V = ShellProfileView;

    open spec fn view(&self) -> ShellProfileView {
        ShellProfileView {
            id: self.id@,
            name: self.name@,
            kind: self.kind,
            command: self.command@,
            args: strings_view(self.args@),
            wsl_distro: match self.wsl_distro {
                Some(d) => Some(d@),
                None => None,
            },
            is_default: self.is_default,
            source: self.source@,
        }
    }
}

/// A sequence of strings, seen as character sequences.
pub open spec fn strings_view(v: Seq<String>) -> Seq<Seq<char>> {
    v.map_values(|s: String| s@)
}

/// A sequence of profiles, seen through their views.
pub open spec fn profiles_view(v: Seq<ShellProfile>) -> Seq<ShellProfileView> {
    v.map_values(|p: ShellProfile| p@)
}

/// The list of profiles and the id of the default one, as listed to clients.
#[derive(Clone, Debug)]
pub struct ShellProfilesResponse {
    pub profiles: Vec<ShellProfile>,
    pub default_profile_id: Option<String>,
}

/// A copy of a list of strings.
pub fn copy_strings(v: &Vec<String>) -> (r: Vec<String>)
    ensures
        strings_view(r@) == strings_view(v@),
{
    let mut r: Vec<String> = Vec::new();
    let mut i: usize = 0;
    while i < v.len()
        invariant
            i <= v@.len(),
            r@.len() == i,
            forall|j: int| 0 <= j < i ==> #[trigger] r@[j]@ == v@[j]@,
        decreases v@.len() - i,
    {
        r.push(v[i].clone());
        i = i + 1;
    }
    assert(strings_view(r@) =~= strings_view(v@));
    r
}

impl ShellProfile {
    /// A copy of the profile.
    pub fn duplicate(&self) -> (r: ShellProfile)
        ensures
            r@ == self@,
    {
        ShellProfile {
            id: self.id.clone(),
            name: self.name.clone(),
            kind: self.kind,
            command: self.command.clone(),
            args: copy_strings(&self.args),
            wsl_distro: match &self.wsl_distro {
                Some(d) => Some(d.clone()),
                None => None,
            },
            is_default: self.is_default,
            source: self.source.clone(),
        }
    }
}

/// The final component of a path (`Path::file_name`), as text.
pub uninterp spec fn path_file_name(path: Seq<char>) -> Option<Seq<char>>;

/// The final component of `path`, if it has one (`Path::file_name`,
/// turned into a `String`); `None` for a path that ends in `..` or is a
/// root or empty.
#[verifier::external_body]
fn file_name_of(path: &str) -> (r: Option<String>)
    ensures
        r is Some <==> path_file_name(path@) is Some,
        r matches Some(n) ==> n@ == path_file_name(path@)->0,
{
    std::path::Path::new(path).file_name()?.to_str().map(String::from)
}

/// The display name of a shell: the file name of its path, `Shell` when
/// the path has none.
pub open spec fn shell_display_name(shell: Seq<char>) -> Seq<char> {
    match path_file_name(shell) {
        Some(n) => n,
        None => "Shell"@,
    }
}

/// The single profile of a Unix machine: the user's shell, started with
/// the given arguments.
pub open spec fn unix_profile_view(shell: Seq<char>, args: Seq<Seq<char>>) -> ShellProfileView {
    ShellProfileView {
        id: "unix-default"@,
        name: shell_display_name(shell),
        kind: ShellProfileKind::Unix,
        command: shell,
        args: args,
        wsl_distro: None,
        is_default: true,
        source: "builtin"@,
    }
}

/// The built-in profiles on a Unix machine: one profile, the default, for
/// the user's shell `shell` started with `shell_args`.
pub fn unix_profiles(shell: &str, shell_args: &Vec<String>) -> (r: Vec<ShellProfile>)
    ensures
        profiles_view(r@) == seq![unix_profile_view(shell@, strings_view(shell_args@))],
{
    let name = match file_name_of(shell) {
        Some(n) => n,
        None => "Shell".to_owned(),
    };
    let p = ShellProfile {
        id: "unix-default".to_owned(),
        name,
        kind: ShellProfileKind::Unix,
        command: shell.to_owned(),
        args: copy_strings(shell_args),
        wsl_distro: None,
        is_default: true,
        source: "builtin".to_owned(),
    };
    let mut r: Vec<ShellProfile> = Vec::new();
    r.push(p);
    assert(profiles_view(r@) =~= seq![unix_profile_view(shell@, strings_view(shell_args@))]);
    r
}

/// The built-in profiles of this machine: on Windows those of
/// `windows_profiles`, from which shells are installed (`has_wsl`,
/// `has_pwsh`, `has_powershell`); elsewhere the one profile of the user's
/// `shell` with its `shell_args`.
pub open spec fn builtin_profile_views(
    is_windows: bool,
    shell: Seq<char>,
    args: Seq<Seq<char>>,
    has_wsl: bool,
    has_pwsh: bool,
    has_powershell: bool,
) -> Seq<ShellProfileView> {
    if is_windows {
        windows_profile_views(has_wsl, has_pwsh, has_powershell)
    } else {
        seq![unix_profile_view(shell, args)]
    }
}

/// The built-in profiles of this machine (see `builtin_profile_views`).
pub fn builtin_profiles(
    is_windows: bool,
    shell: &str,
    shell_args: &Vec<String>,
    has_wsl: bool,
    has_pwsh: bool,
    has_powershell: bool,
) -> (r: Vec<ShellProfile>)
    ensures
        profiles_view(r@) == builtin_profile_views(
            is_windows,
            shell@,
            strings_view(shell_args@),
            has_wsl,
            has_pwsh,
            has_powershell,
        ),
{
    if is_windows {
        windows_profiles(has_wsl, has_pwsh, has_powershell)
    } else {
        unix_profiles(shell, shell_args)
    }
}


/// A built-in Windows profile.
pub open spec fn windows_profile_view(
    id: Seq<char>,
    name: Seq<char>,
    kind: ShellProfileKind,
    command: Seq<char>,
    args: Seq<Seq<char>>,
    is_default: bool,
) -> ShellProfileView {
    ShellProfileView {
        id,
        name,
        kind,
        command,
        args,
        wsl_distro: None,
        is_default,
        source: "builtin"@,
    }
}

/// The built-in profiles of a Windows machine, given which shells it has:
/// WSL first if present, then PowerShell (`pwsh.exe`, else
/// `powershell.exe`) if present, then the Command Prompt, which is always
/// there; the first of them is the default.
pub open spec fn windows_profile_views(has_wsl: bool, has_pwsh: bool, has_powershell: bool) -> Seq<
    ShellProfileView,
> {
    let a: Seq<ShellProfileView> = if has_wsl {
        seq![windows_profile_view("wsl-default"@, "WSL"@, ShellProfileKind::Wsl, "wsl.exe"@, seq![], true)]
    } else {
        seq![]
    };
    let b: Seq<ShellProfileView> = if has_pwsh {
        a.push(windows_profile_view("powershell"@, "PowerShell"@, ShellProfileKind::Powershell, "pwsh.exe"@, seq!["-NoLogo"@], a.len() == 0))
    } else if has_powershell {
        a.push(windows_profile_view("powershell"@, "PowerShell"@, ShellProfileKind::Powershell, "powershell.exe"@, seq!["-NoLogo"@], a.len() == 0))
    } else {
        a
    };
    b.push(windows_profile_view("cmd"@, "Command Prompt"@, ShellProfileKind::Cmd, "cmd.exe"@, seq![], b.len() == 0))
}

/// A built-in Windows profile.
fn windows_profile(
    id: &str,
    name: &str,
    kind: ShellProfileKind,
    command: &str,
    no_logo: bool,
    is_default: bool,
) -> (p: ShellProfile)
    ensures
        p@ == windows_profile_view(
            id@,
            name@,
            kind,
            command@,
            if no_logo {
                seq!["-NoLogo"@]
            } else {
                seq![]
            },
            is_default,
        ),
{
    let mut args: Vec<String> = Vec::new();
    if no_logo {
        args.push("-NoLogo".to_owned());
    }
    let p = ShellProfile {
        id: id.to_owned(),
        name: name.to_owned(),
        kind,
        command: command.to_owned(),
        args,
        wsl_distro: None,
        is_default,
        source: "builtin".to_owned(),
    };
    assert(p@.args =~= (if no_logo {
        seq!["-NoLogo"@]
    } else {
        seq![]
    }));
    p
}

/// The built-in profiles of a Windows machine, given which of `wsl.exe`,
/// `pwsh.exe` and `powershell.exe` it has (see `windows_profile_views`).
pub fn windows_profiles(has_wsl: bool, has_pwsh: bool, has_powershell: bool) -> (r: Vec<
    ShellProfile,
>)
    ensures
        profiles_view(r@) == windows_profile_views(has_wsl, has_pwsh, has_powershell),
{
    let mut profiles: Vec<ShellProfile> = Vec::new();
    if has_wsl {
        profiles.push(windows_profile("wsl-default", "WSL", ShellProfileKind::Wsl, "wsl.exe", false, true));
    }
    let ghost a = profiles_view(profiles@);
    if has_pwsh {
        let d = profiles.len() == 0;
        profiles.push(windows_profile("powershell", "PowerShell", ShellProfileKind::Powershell, "pwsh.exe", true, d));
    } else if has_powershell {
        let d = profiles.len() == 0;
        profiles.push(windows_profile("powershell", "PowerShell", ShellProfileKind::Powershell, "powershell.exe", true, d));
    }
    let ghost b = profiles_view(profiles@);
    let d = profiles.len() == 0;
    profiles.push(windows_profile("cmd", "Command Prompt", ShellProfileKind::Cmd, "cmd.exe", false, d));
    proof {
        let expect_a: Seq<ShellProfileView> = if has_wsl {
            seq![windows_profile_view("wsl-default"@, "WSL"@, ShellProfileKind::Wsl, "wsl.exe"@, seq![], true)]
        } else {
            seq![]
        };
        assert(a =~= expect_a);
        assert(profiles_view(profiles@) =~= b.push(profiles@.last()@));
        assert(profiles_view(profiles@) =~= windows_profile_views(has_wsl, has_pwsh, has_powershell));
    }
    profiles
}

/// `i` is the first position in `ps` of a profile with id `id`.
pub open spec fn is_first_with_id(ps: Seq<ShellProfileView>, id: Seq<char>, i: int) -> bool {
    &&& 0 <= i < ps.len()
    &&& ps[i].id == id
    &&& forall|j: int| 0 <= j < i ==> ps[j].id != id
}

/// The first profile in `ps` with id `id`, if any.
pub open spec fn first_with_id(ps: Seq<ShellProfileView>, id: Seq<char>) -> Option<ShellProfileView> {
    if exists|i: int| is_first_with_id(ps, id, i) {
        Some(ps[choose|i: int| is_first_with_id(ps, id, i)])
    } else {
        None
    }
}

/// `i` is the first position in `ps` of a default profile.
pub open spec fn is_first_default(ps: Seq<ShellProfileView>, i: int) -> bool {
    &&& 0 <= i < ps.len()
    &&& ps[i].is_default
    &&& forall|j: int| 0 <= j < i ==> !ps[j].is_default
}

/// The first default profile in `ps`, if any.
pub open spec fn first_default(ps: Seq<ShellProfileView>) -> Option<ShellProfileView> {
    if exists|i: int| is_first_default(ps, i) {
        Some(ps[choose|i: int| is_first_default(ps, i)])
    } else {
        None
    }
}

/// An optional profile, seen through its view.
pub open spec fn opt_profile_view(o: Option<ShellProfile>) -> Option<ShellProfileView> {
    match o {
        Some(p) => Some(p@),
        None => None,
    }
}

/// The first default profile of `profiles`, if any.
pub fn default_profile(profiles: &Vec<ShellProfile>) -> (r: Option<ShellProfile>)
    ensures
        opt_profile_view(r) == first_default(profiles_view(profiles@)),
{
    let ghost ps = profiles_view(profiles@);
    let mut i: usize = 0;
    while i < profiles.len()
        invariant
            i <= profiles@.len() == ps.len(),
            ps == profiles_view(profiles@),
            forall|j: int| 0 <= j < i ==> !ps[j].is_default,
        decreases profiles@.len() - i,
    {
        if profiles[i].is_default {
            proof {
                assert(is_first_default(ps, i as int));
                let k = choose|k: int| is_first_default(ps, k);
                if k < i {
                    assert(!ps[k].is_default);
                } else if k > i {
                    assert(!ps[i as int].is_default);
                }
            }
            return Some(profiles[i].duplicate());
        }
        i = i + 1;
    }
    proof {
        if exists|k: int| is_first_default(ps, k) {
            let k = choose|k: int| is_first_default(ps, k);
            assert(!ps[k].is_default);
        }
    }
    None
}

/// The profile to start a shell with: the first one with the requested id,
/// else the first default one.
pub open spec fn resolve_profile(ps: Seq<ShellProfileView>, profile_id: Option<Seq<char>>) -> Option<
    ShellProfileView,
> {
    match profile_id {
        Some(id) => match first_with_id(ps, id) {
            Some(p) => Some(p),
            None => first_default(ps),
        },
        None => first_default(ps),
    }
}

/// The first profile of `profiles` with id `id`, if any.
fn profile_with_id(profiles: &Vec<ShellProfile>, id: &str) -> (r: Option<ShellProfile>)
    ensures
        opt_profile_view(r) == first_with_id(profiles_view(profiles@), id@),
{
    let ghost ps = profiles_view(profiles@);
    let mut i: usize = 0;
    while i < profiles.len()
        invariant
            i <= profiles@.len() == ps.len(),
            ps == profiles_view(profiles@),
            forall|j: int| 0 <= j < i ==> ps[j].id != id@,
        decreases profiles@.len() - i,
    {
        if str_eq(profiles[i].id.as_str(), id) {
            proof {
                assert(is_first_with_id(ps, id@, i as int));
                let k = choose|k: int| is_first_with_id(ps, id@, k);
                if k < i {
                    assert(ps[k].id != id@);
                } else if k > i {
                    assert(ps[i as int].id != id@);
                }
            }
            return Some(profiles[i].duplicate());
        }
        i = i + 1;
    }
    proof {
        if exists|k: int| is_first_with_id(ps, id@, k) {
            let k = choose|k: int| is_first_with_id(ps, id@, k);
            assert(ps[k].id != id@);
        }
    }
    None
}

/// The profile to start a shell with: the first of `profiles` whose id is
/// `profile_id`, or, when there is none or no id was given, the first
/// default profile.
pub fn find_profile(profiles: &Vec<ShellProfile>, profile_id: Option<&str>) -> (r: Option<
    ShellProfile,
>)
    ensures
        opt_profile_view(r) == resolve_profile(
            profiles_view(profiles@),
            match profile_id {
                Some(id) => Some(id@),
                None => None,
            },
        ),
{
    match profile_id {
        Some(id) => match profile_with_id(profiles, id) {
            Some(p) => Some(p),
            None => default_profile(profiles),
        },
        None => default_profile(profiles),
    }
}

/// A copy of a list of profiles.
fn copy_profiles(v: &Vec<ShellProfile>) -> (r: Vec<ShellProfile>)
    ensures
        profiles_view(r@) == profiles_view(v@),
{
    let mut r: Vec<ShellProfile> = Vec::new();
    let mut i: usize = 0;
    while i < v.len()
        invariant
            i <= v@.len(),
            r@.len() == i,
            forall|j: int| 0 <= j < i ==> #[trigger] r@[j]@ == v@[j]@,
        decreases v@.len() - i,
    {
        r.push(v[i].duplicate());
        i = i + 1;
    }
    assert(profiles_view(r@) =~= profiles_view(v@));
    r
}

/// The profile listing: all profiles, and the id of the first default one.
pub fn list_profiles(profiles: &Vec<ShellProfile>) -> (r: ShellProfilesResponse)
    ensures
        profiles_view(r.profiles@) == profiles_view(profiles@),
        r.default_profile_id is Some <==> first_default(profiles_view(profiles@)) is Some,
        r.default_profile_id matches Some(id) ==> id@ == first_default(
            profiles_view(profiles@),
        )->0.id,
{
    let d = default_profile(profiles);
    let default_profile_id = match d {
        Some(p) => Some(p.id),
        None => None,
    };
    ShellProfilesResponse { profiles: copy_profiles(profiles), default_profile_id }
}


/// On a Unix machine the default profile is the user's shell.
pub proof fn law_builtin_default_is_the_shell(shell: Seq<char>, args: Seq<Seq<char>>)
    ensures
        first_default(seq![unix_profile_view(shell, args)]) == Some(unix_profile_view(shell, args)),
{
    let ps = seq![unix_profile_view(shell, args)];
    assert(is_first_default(ps, 0));
    let k = choose|k: int| is_first_default(ps, k);
    assert(k == 0);
}

/// Looking up a profile id that no profile has falls back to the default
/// profile, as does giving no id.
pub proof fn law_unknown_profile_falls_back_to_default(ps: Seq<ShellProfileView>, id: Seq<char>)
    requires
        forall|i: int| 0 <= i < ps.len() ==> ps[i].id != id,
    ensures
        resolve_profile(ps, Some(id)) == first_default(ps),
        resolve_profile(ps, None) == first_default(ps),
{
    if exists|i: int| is_first_with_id(ps, id, i) {
        let i = choose|i: int| is_first_with_id(ps, id, i);
        assert(ps[i].id != id);
    }
}

/// Looking up the id of an existing profile finds a profile with that id.
pub proof fn law_known_profile_is_found(ps: Seq<ShellProfileView>, id: Seq<char>, i: int)
    requires
        0 <= i < ps.len(),
        ps[i].id == id,
    ensures
        resolve_profile(ps, Some(id)) matches Some(p) && p.id == id,
{
    lemma_first_with_id_exists(ps, id, i);
    let c = choose|c: int| is_first_with_id(ps, id, c);
    assert(ps[c].id == id);
}

/// A profile with a given id has a first occurrence.
proof fn lemma_first_with_id_exists(ps: Seq<ShellProfileView>, id: Seq<char>, i: int)
    requires
        0 <= i < ps.len(),
        ps[i].id == id,
    ensures
        exists|j: int| is_first_with_id(ps, id, j),
    decreases i,
{
    if forall|k: int| 0 <= k < i ==> ps[k].id != id {
        assert(is_first_with_id(ps, id, i));
    } else {
        let k = choose|k: int| 0 <= k < i && ps[k].id != id == false;
        lemma_first_with_id_exists(ps, id, k);
    }
}

/// On Windows exactly one built-in profile is the default, the first one,
/// and the Command Prompt is always offered last.
pub proof fn law_windows_has_one_default(has_wsl: bool, has_pwsh: bool, has_powershell: bool)
    ensures
        ({
            let ps = windows_profile_views(has_wsl, has_pwsh, has_powershell);
            &&& ps.len() >= 1
            &&& ps[0].is_default
            &&& forall|i: int| 1 <= i < ps.len() ==> !ps[i].is_default
            &&& ps.last().kind == ShellProfileKind::Cmd
            &&& first_default(ps) == Some(ps[0])
        }),
{
    let ps = windows_profile_views(has_wsl, has_pwsh, has_powershell);
    assert(is_first_default(ps, 0));
    let k = choose|k: int| is_first_default(ps, k);
    assert(k == 0);
}

} // verus!
