//! Package manager ecosystems: their names and the commands that check for
//! and install packages.

use vstd::prelude::*;
use crate::text::{contains_str, str_eq, strs};

verus! {

/// Known package manager ecosystems.
#[derive(Debug, Clone, Copy, PartialEq, Eq, Structural, PartialOrd, Ord, Hash)]
pub enum Ecosystem {
    /// Arch Linux pacman
    Pacman,
    /// Debian/Ubuntu apt
    Apt,
    /// Fedora/RHEL dnf
    Dnf,
    /// Alpine apk
    Apk,
    /// macOS/Linux Homebrew
    Brew,
    /// NixOS/Nix
    Nix,
    /// Windows Scoop
    Scoop,
    /// Windows winget
    Winget,
    /// Rust cargo
    Cargo,
}

/// The character sequences of a list of string slices, in order.
pub open spec fn strs_of(v: Seq<&str>) -> Seq<Seq<char>> {
    Seq::new(v.len(), |i: int| v[i]@)
}

/// The string identifier of an ecosystem.
pub open spec fn spec_id(e: Ecosystem) -> Seq<char> {
    match e {
        Ecosystem::Pacman => "pacman"@,
        Ecosystem::Apt => "apt"@,
        Ecosystem::Dnf => "dnf"@,
        Ecosystem::Apk => "apk"@,
        Ecosystem::Brew => "brew"@,
        Ecosystem::Nix => "nix"@,
        Ecosystem::Scoop => "scoop"@,
        Ecosystem::Winget => "winget"@,
        Ecosystem::Cargo => "cargo"@,
    }
}

/// The ecosystem that an identifier names, if it names one.
pub open spec fn spec_from_id(id: Seq<char>) -> Option<Ecosystem> {
    if id == "pacman"@ {
        Some(Ecosystem::Pacman)
    } else if id == "apt"@ {
        Some(Ecosystem::Apt)
    } else if id == "dnf"@ {
        Some(Ecosystem::Dnf)
    } else if id == "apk"@ {
        Some(Ecosystem::Apk)
    } else if id == "brew"@ {
        Some(Ecosystem::Brew)
    } else if id == "nix"@ {
        Some(Ecosystem::Nix)
    } else if id == "scoop"@ {
        Some(Ecosystem::Scoop)
    } else if id == "winget"@ {
        Some(Ecosystem::Winget)
    } else if id == "cargo"@ {
        Some(Ecosystem::Cargo)
    } else {
        None
    }
}

/// The program whose presence shows that an ecosystem is available.
pub open spec fn spec_binary(e: Ecosystem) -> Seq<char> {
    match e {
        Ecosystem::Nix => "nix-env"@,
        _ => spec_id(e),
    }
}

/// The command that checks whether `package` is installed.
pub open spec fn spec_check_installed_cmd(e: Ecosystem, package: Seq<char>) -> Seq<Seq<char>> {
    match e {
        Ecosystem::Pacman => seq!["pacman"@, "-Q"@, package],
        Ecosystem::Apt => seq!["dpkg"@, "-s"@, package],
        Ecosystem::Dnf => seq!["rpm"@, "-q"@, package],
        Ecosystem::Apk => seq!["apk"@, "info"@, "-e"@, package],
        Ecosystem::Brew => seq!["brew"@, "list"@, package],
        Ecosystem::Nix => seq!["nix-env"@, "-q"@, package],
        Ecosystem::Scoop => seq!["scoop"@, "list"@, package],
        Ecosystem::Winget => seq!["winget"@, "list"@, "--id"@, package],
        Ecosystem::Cargo => seq!["cargo"@, "install"@, "--list"@],
    }
}

/// The words that an install command begins with.
pub open spec fn spec_install_prefix(e: Ecosystem) -> Seq<Seq<char>> {
    match e {
        Ecosystem::Pacman => seq!["sudo"@, "pacman"@, "-S"@, "--noconfirm"@],
        Ecosystem::Apt => seq!["sudo"@, "apt"@, "install"@, "-y"@],
        Ecosystem::Dnf => seq!["sudo"@, "dnf"@, "install"@, "-y"@],
        Ecosystem::Apk => seq!["sudo"@, "apk"@, "add"@],
        Ecosystem::Brew => seq!["brew"@, "install"@],
        Ecosystem::Nix => seq!["nix-env"@, "-iA"@],
        Ecosystem::Scoop => seq!["scoop"@, "install"@],
        Ecosystem::Winget => seq!["winget"@, "install"@],
        Ecosystem::Cargo => seq!["cargo"@, "install"@],
    }
}

/// How a package is named on the command line: Nix wants its attribute
/// path, the others the name as it is.
pub open spec fn spec_package_arg(e: Ecosystem, package: Seq<char>) -> Seq<char> {
    match e {
        Ecosystem::Nix => "nixpkgs."@ + package,
        _ => package,
    }
}

/// The packages as they are named on the command line.
pub open spec fn spec_package_args(e: Ecosystem, packages: Seq<Seq<char>>) -> Seq<Seq<char>> {
    Seq::new(packages.len(), |i: int| spec_package_arg(e, packages[i]))
}

/// The command that installs `packages`.
pub open spec fn spec_install_cmd(e: Ecosystem, packages: Seq<Seq<char>>) -> Seq<Seq<char>> {
    spec_install_prefix(e) + spec_package_args(e, packages)
}

/// Words joined by single spaces.
pub open spec fn spec_join_words(words: Seq<Seq<char>>) -> Seq<char>
    decreases words.len(),
{
    if words.len() == 0 {
        Seq::empty()
    } else if words.len() == 1 {
        words[0]
    } else {
        spec_join_words(words.drop_last()) + " "@ + words.last()
    }
}

/// What an install command is shown as, up to the packages.
pub open spec fn spec_display_prefix(e: Ecosystem) -> Seq<char> {
    match e {
        Ecosystem::Pacman => "sudo pacman -S "@,
        Ecosystem::Apt => "sudo apt install "@,
        Ecosystem::Dnf => "sudo dnf install "@,
        Ecosystem::Apk => "sudo apk add "@,
        Ecosystem::Brew => "brew install "@,
        Ecosystem::Nix => "nix-env -iA "@,
        Ecosystem::Scoop => "scoop install "@,
        Ecosystem::Winget => "winget install "@,
        Ecosystem::Cargo => "cargo install "@,
    }
}

/// The install command as it is shown to the user, without the flags that
/// only suppress questions.
pub open spec fn spec_install_cmd_display(e: Ecosystem, packages: Seq<Seq<char>>) -> Seq<char> {
    spec_display_prefix(e) + spec_join_words(spec_package_args(e, packages))
}

/// Whether installing needs the rights of the superuser.
pub open spec fn spec_needs_sudo(e: Ecosystem) -> bool {
    e == Ecosystem::Pacman || e == Ecosystem::Apt || e == Ecosystem::Dnf || e == Ecosystem::Apk
}

/// The ecosystems in the order in which they are looked for.
pub open spec fn spec_candidates() -> Seq<Ecosystem> {
    seq![
        Ecosystem::Pacman,
        Ecosystem::Apt,
        Ecosystem::Dnf,
        Ecosystem::Apk,
        Ecosystem::Brew,
        Ecosystem::Nix,
        Ecosystem::Scoop,
        Ecosystem::Winget,
        Ecosystem::Cargo,
    ]
}

/// The system package managers in the order in which they are preferred.
pub open spec fn spec_priority() -> Seq<Ecosystem> {
    seq![
        Ecosystem::Pacman,
        Ecosystem::Apt,
        Ecosystem::Dnf,
        Ecosystem::Apk,
        Ecosystem::Nix,
        Ecosystem::Brew,
        Ecosystem::Scoop,
        Ecosystem::Winget,
    ]
}

/// Those of the first `n` candidates whose program is among `commands`.
pub open spec fn spec_detect(commands: Seq<Seq<char>>, n: nat) -> Seq<Ecosystem>
    decreases n,
{
    if n == 0 || n > spec_candidates().len() {
        Seq::empty()
    } else {
        let before = spec_detect(commands, (n - 1) as nat);
        let e = spec_candidates()[n - 1];
        if commands.contains(spec_binary(e)) {
            before.push(e)
        } else {
            before
        }
    }
}

/// The first ecosystem of `order`, from `from` on, that is available.
pub open spec fn spec_first_available(
    order: Seq<Ecosystem>,
    available: Seq<Ecosystem>,
    from: nat,
) -> Option<Ecosystem>
    decreases order.len() - from,
{
    if from >= order.len() {
        None
    } else if available.contains(order[from as int]) {
        Some(order[from as int])
    } else {
        spec_first_available(order, available, from + 1)
    }
}

impl Ecosystem {
    /// Get the string identifier for this ecosystem.
    pub fn id(&self) -> (id: &'static str)
        ensures
            id@ == spec_id(*self),
    {
        match self {
            Ecosystem::Pacman => "pacman",
            Ecosystem::Apt => "apt",
            Ecosystem::Dnf => "dnf",
            Ecosystem::Apk => "apk",
            Ecosystem::Brew => "brew",
            Ecosystem::Nix => "nix",
            Ecosystem::Scoop => "scoop",
            Ecosystem::Winget => "winget",
            Ecosystem::Cargo => "cargo",
        }
    }

    /// Parse from string identifier.
    pub fn from_id(id: &str) -> (e: Option<Ecosystem>)
        ensures
            e == spec_from_id(id@),
    {
        if str_eq(id, "pacman") {
            Some(Ecosystem::Pacman)
        } else if str_eq(id, "apt") {
            Some(Ecosystem::Apt)
        } else if str_eq(id, "dnf") {
            Some(Ecosystem::Dnf)
        } else if str_eq(id, "apk") {
            Some(Ecosystem::Apk)
        } else if str_eq(id, "brew") {
            Some(Ecosystem::Brew)
        } else if str_eq(id, "nix") {
            Some(Ecosystem::Nix)
        } else if str_eq(id, "scoop") {
            Some(Ecosystem::Scoop)
        } else if str_eq(id, "winget") {
            Some(Ecosystem::Winget)
        } else if str_eq(id, "cargo") {
            Some(Ecosystem::Cargo)
        } else {
            None
        }
    }

    /// The program whose presence shows that this ecosystem is available.
    pub fn binary(&self) -> (name: &'static str)
        ensures
            name@ == spec_binary(*self),
    {
        match self {
            Ecosystem::Nix => "nix-env",
            _ => self.id(),
        }
    }

    /// Get the command to check if a package is installed.
    pub fn check_installed_cmd(&self, package: &str) -> (cmd: Vec<String>)
        ensures
            strs(cmd@) == spec_check_installed_cmd(*self, package@),
    {
        let mut cmd: Vec<String> = Vec::new();
        match self {
            Ecosystem::Pacman => {
                cmd.push("pacman".to_owned());
                cmd.push("-Q".to_owned());
                cmd.push(package.to_owned());
            },
            Ecosystem::Apt => {
                cmd.push("dpkg".to_owned());
                cmd.push("-s".to_owned());
                cmd.push(package.to_owned());
            },
            Ecosystem::Dnf => {
                cmd.push("rpm".to_owned());
                cmd.push("-q".to_owned());
                cmd.push(package.to_owned());
            },
            Ecosystem::Apk => {
                cmd.push("apk".to_owned());
                cmd.push("info".to_owned());
                cmd.push("-e".to_owned());
                cmd.push(package.to_owned());
            },
            Ecosystem::Brew => {
                cmd.push("brew".to_owned());
                cmd.push("list".to_owned());
                cmd.push(package.to_owned());
            },
            Ecosystem::Nix => {
                cmd.push("nix-env".to_owned());
                cmd.push("-q".to_owned());
                cmd.push(package.to_owned());
            },
            Ecosystem::Scoop => {
                cmd.push("scoop".to_owned());
                cmd.push("list".to_owned());
                cmd.push(package.to_owned());
            },
            Ecosystem::Winget => {
                cmd.push("winget".to_owned());
                cmd.push("list".to_owned());
                cmd.push("--id".to_owned());
                cmd.push(package.to_owned());
            },
            Ecosystem::Cargo => {
                cmd.push("cargo".to_owned());
                cmd.push("install".to_owned());
                cmd.push("--list".to_owned());
            },
        }
        assert(strs(cmd@) =~= spec_check_installed_cmd(*self, package@));
        cmd
    }

    /// The words that the install command begins with.
    fn install_prefix(&self) -> (cmd: Vec<String>)
        ensures
            strs(cmd@) == spec_install_prefix(*self),
    {
        let mut cmd: Vec<String> = Vec::new();
        match self {
            Ecosystem::Pacman => {
                cmd.push("sudo".to_owned());
                cmd.push("pacman".to_owned());
                cmd.push("-S".to_owned());
                cmd.push("--noconfirm".to_owned());
            },
            Ecosystem::Apt => {
                cmd.push("sudo".to_owned());
                cmd.push("apt".to_owned());
                cmd.push("install".to_owned());
                cmd.push("-y".to_owned());
            },
            Ecosystem::Dnf => {
                cmd.push("sudo".to_owned());
                cmd.push("dnf".to_owned());
                cmd.push("install".to_owned());
                cmd.push("-y".to_owned());
            },
            Ecosystem::Apk => {
                cmd.push("sudo".to_owned());
                cmd.push("apk".to_owned());
                cmd.push("add".to_owned());
            },
            Ecosystem::Brew => {
                cmd.push("brew".to_owned());
                cmd.push("install".to_owned());
            },
            Ecosystem::Nix => {
                cmd.push("nix-env".to_owned());
                cmd.push("-iA".to_owned());
            },
            Ecosystem::Scoop => {
                cmd.push("scoop".to_owned());
                cmd.push("install".to_owned());
            },
            Ecosystem::Winget => {
                cmd.push("winget".to_owned());
                cmd.push("install".to_owned());
            },
            Ecosystem::Cargo => {
                cmd.push("cargo".to_owned());
                cmd.push("install".to_owned());
            },
        }
        assert(strs(cmd@) =~= spec_install_prefix(*self));
        cmd
    }

    /// How a package is named on this ecosystem's command line.
    fn package_arg(&self, package: &str) -> (arg: String)
        ensures
            arg@ == spec_package_arg(*self, package@),
    {
        match self {
            Ecosystem::Nix => {
                let mut arg = "nixpkgs.".to_owned();
                arg.append(package);
                arg
            },
            _ => package.to_owned(),
        }
    }

    /// Get the command to install packages.
    pub fn install_cmd(&self, packages: &[&str]) -> (cmd: Vec<String>)
        ensures
            strs(cmd@) == spec_install_cmd(*self, strs_of(packages@)),
    {
        let mut cmd = self.install_prefix();
        let ghost prefix = strs(cmd@);
        let ghost args = spec_package_args(*self, strs_of(packages@));
        let mut i: usize = 0;
        assert(strs(cmd@) =~= prefix + args.subrange(0, 0));
        while i < packages.len()
            invariant
                i <= packages.len(),
                args == spec_package_args(*self, strs_of(packages@)),
                strs(cmd@) == prefix + args.subrange(0, i as int),
            decreases packages.len() - i,
        {
            let ghost shown = strs(cmd@);
            let arg = self.package_arg(packages[i]);
            assert(args[i as int] == arg@) by {
                assert(strs_of(packages@)[i as int] == packages@[i as int]@);
            }
            cmd.push(arg);
            assert(strs(cmd@) =~= shown.push(args[i as int]));
            assert(strs(cmd@) =~= prefix + args.subrange(0, i as int + 1));
            i += 1;
        }
        assert(args.subrange(0, packages.len() as int) =~= args);
        cmd
    }

    /// Format install command for display (without --noconfirm etc.).
    pub fn install_cmd_display(&self, packages: &[&str]) -> (shown: String)
        ensures
            shown@ == spec_install_cmd_display(*self, strs_of(packages@)),
    {
        let mut shown = match self {
            Ecosystem::Pacman => "sudo pacman -S ".to_owned(),
            Ecosystem::Apt => "sudo apt install ".to_owned(),
            Ecosystem::Dnf => "sudo dnf install ".to_owned(),
            Ecosystem::Apk => "sudo apk add ".to_owned(),
            Ecosystem::Brew => "brew install ".to_owned(),
            Ecosystem::Nix => "nix-env -iA ".to_owned(),
            Ecosystem::Scoop => "scoop install ".to_owned(),
            Ecosystem::Winget => "winget install ".to_owned(),
            Ecosystem::Cargo => "cargo install ".to_owned(),
        };
        let ghost prefix = shown@;
        let ghost args = spec_package_args(*self, strs_of(packages@));
        let mut i: usize = 0;
        assert(args.subrange(0, 0) =~= Seq::<Seq<char>>::empty());
        assert(shown@ =~= prefix + spec_join_words(args.subrange(0, 0)));
        while i < packages.len()
            invariant
                i <= packages.len(),
                args == spec_package_args(*self, strs_of(packages@)),
                shown@ == prefix + spec_join_words(args.subrange(0, i as int)),
            decreases packages.len() - i,
        {
            let arg = self.package_arg(packages[i]);
            proof {
                assert(args[i as int] == arg@) by {
                    assert(strs_of(packages@)[i as int] == packages@[i as int]@);
                }
                let upto = args.subrange(0, i as int + 1);
                assert(upto.drop_last() =~= args.subrange(0, i as int));
                assert(upto.last() == arg@);
                if i == 0 {
                    assert(upto[0] == arg@);
                    assert(spec_join_words(upto) == arg@);
                    assert(spec_join_words(args.subrange(0, 0)) =~= Seq::<char>::empty());
                }
            }
            if i > 0 {
                shown.append(" ");
            }
            shown.append(arg.as_str());
            assert(shown@ =~= prefix + spec_join_words(args.subrange(0, i as int + 1)));
            i += 1;
        }
        assert(args.subrange(0, packages.len() as int) =~= args);
        shown
    }

    /// Whether this ecosystem typically requires sudo.
    pub fn needs_sudo(&self) -> (needed: bool)
        ensures
            needed == spec_needs_sudo(*self),
    {
        match self {
            Ecosystem::Pacman | Ecosystem::Apt | Ecosystem::Dnf | Ecosystem::Apk => true,
            _ => false,
        }
    }
}

/// The ecosystems in the order in which they are looked for.
pub fn candidates() -> (all: Vec<Ecosystem>)
    ensures
        all@ == spec_candidates(),
{
    let mut all: Vec<Ecosystem> = Vec::new();
    all.push(Ecosystem::Pacman);
    all.push(Ecosystem::Apt);
    all.push(Ecosystem::Dnf);
    all.push(Ecosystem::Apk);
    all.push(Ecosystem::Brew);
    all.push(Ecosystem::Nix);
    all.push(Ecosystem::Scoop);
    all.push(Ecosystem::Winget);
    all.push(Ecosystem::Cargo);
    assert(all@ =~= spec_candidates());
    all
}

/// The system package managers in the order in which they are preferred.
fn priority() -> (order: Vec<Ecosystem>)
    ensures
        order@ == spec_priority(),
{
    let mut order: Vec<Ecosystem> = Vec::new();
    order.push(Ecosystem::Pacman);
    order.push(Ecosystem::Apt);
    order.push(Ecosystem::Dnf);
    order.push(Ecosystem::Apk);
    order.push(Ecosystem::Nix);
    order.push(Ecosystem::Brew);
    order.push(Ecosystem::Scoop);
    order.push(Ecosystem::Winget);
    assert(order@ =~= spec_priority());
    order
}

/// Whether `e` is among `list`.
fn contains_ecosystem(list: &Vec<Ecosystem>, e: Ecosystem) -> (found: bool)
    ensures
        found == list@.contains(e),
{
    let mut i: usize = 0;
    while i < list.len()
        invariant
            i <= list.len(),
            forall|k: int| 0 <= k < i ==> list@[k] != e,
        decreases list.len() - i,
    {
        if list[i] == e {
            return true;
        }
        i += 1;
    }
    false
}

/// Detect the ecosystems available on a system on which the programs
/// `commands` are found: those whose program is among them.
pub fn detect_ecosystems(commands: &Vec<String>) -> (found: Vec<Ecosystem>)
    ensures
        found@ == spec_detect(strs(commands@), spec_candidates().len()),
{
    let all = candidates();
    let mut found: Vec<Ecosystem> = Vec::new();
    let mut i: usize = 0;
    while i < all.len()
        invariant
            i <= all.len(),
            all@ == spec_candidates(),
            found@ == spec_detect(strs(commands@), i as nat),
        decreases all.len() - i,
    {
        let e = all[i];
        if contains_str(commands, e.binary()) {
            found.push(e);
        }
        i += 1;
    }
    found
}

/// Detect the primary ecosystem: the first system package manager, in the
/// order of preference, that is among those available.
pub fn detect_primary_ecosystem(available: &Vec<Ecosystem>) -> (primary: Option<Ecosystem>)
    ensures
        primary == spec_first_available(spec_priority(), available@, 0),
{
    let order = priority();
    let mut i: usize = 0;
    while i < order.len()
        invariant
            i <= order.len(),
            order@ == spec_priority(),
            spec_first_available(spec_priority(), available@, 0) == spec_first_available(
                spec_priority(),
                available@,
                i as nat,
            ),
        decreases order.len() - i,
    {
        if contains_ecosystem(available, order[i]) {
            return Some(order[i]);
        }
        i += 1;
    }
    None
}

/// An ecosystem is found again by its identifier.
pub proof fn law_id_round_trip(e: Ecosystem)
    ensures
        spec_from_id(spec_id(e)) == Some(e),
{
    reveal_strlit("pacman");
    reveal_strlit("apt");
    reveal_strlit("dnf");
    reveal_strlit("apk");
    reveal_strlit("brew");
    reveal_strlit("nix");
    reveal_strlit("scoop");
    reveal_strlit("winget");
    reveal_strlit("cargo");
    assert("apt"@[0] == 'a' && "apk"@[2] == 'k' && "apt"@[2] == 't' && "dnf"@[0] == 'd'
        && "nix"@[0] == 'n');
    assert("scoop"@[0] == 's' && "cargo"@[0] == 'c');
    assert("pacman"@[0] == 'p' && "winget"@[0] == 'w');
}

/// The first available ecosystem of an order is available, is in the
/// order, and nothing before it is available.
pub proof fn law_first_available(order: Seq<Ecosystem>, available: Seq<Ecosystem>, from: nat)
    requires
        from <= order.len(),
    ensures
        match spec_first_available(order, available, from) {
            Some(e) => available.contains(e) && exists|i: int|
                from <= i < order.len() && order[i] == e && forall|k: int|
                    from <= k < i ==> !available.contains(#[trigger] order[k]),
            None => forall|k: int|
                from <= k < order.len() ==> !available.contains(#[trigger] order[k]),
        },
    decreases order.len() - from,
{
    if from < order.len() {
        if available.contains(order[from as int]) {
            assert(order[from as int] == order[from as int]);
        } else {
            law_first_available(order, available, from + 1);
            match spec_first_available(order, available, from + 1) {
                Some(e) => {
                    let i = choose|i: int|
                        from + 1 <= i < order.len() && order[i] == e && forall|k: int|
                            from + 1 <= k < i ==> !available.contains(#[trigger] order[k]);
                    assert(from <= i < order.len() && order[i] == e && forall|k: int|
                        from <= k < i ==> !available.contains(#[trigger] order[k]));
                },
                None => {},
            }
        }
    }
}

} // verus!
