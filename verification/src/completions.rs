use vstd::prelude::*;

verus! {

pub const ZSH_COMPLETION: &'static str = r#"#compdef ccuse

# zsh completion for ccuse
# Dynamic completion that fetches profile names from ccuse list

local -a subcommands
subcommands=(
  'use:Use a profile to launch the assistant'
  'update:Update profiles from CC-Switch database'
  'list:List all available profiles'
  'add:Add a new profile interactively'
  'remove:Remove a profile'
  'rename:Rename a profile'
  'config-dir:Show configuration directory'
  'completions:Install shell completions'
)

# Get profile names dynamically from ccuse list
local -a profiles
profiles=(${${(f)"$(ccuse list 2>/dev/null | sed -n 's/^  \([^ ]*\).*/\1/p')"}:#})

case "$words[1]" in
  use|remove|rename)
    _describe 'profile' profiles
    ;;
  *)
    _describe 'command' subcommands
    ;;
esac
"#;

pub const BASH_COMPLETION: &'static str = r#"_ccuse() {
    local cur prev opts
    COMPREPLY=()
    cur="${COMP_WORDS[COMP_CWORD]}"
    prev="${COMP_WORDS[COMP_CWORD-1]}"

    local -a subcommands
    subcommands=(
        use
        update
        list
        add
        remove
        rename
        config-dir
        completions
    )

    local -a profiles
    profiles=($(ccuse list 2>/dev/null | sed -n 's/^  \([^ ]*\).*/\1/p' | grep -v '^$'))

    case "${prev}" in
        ccuse)
            COMPREPLY=($(compgen -W "${subcommands[*]}" -- "${cur}"))
            ;;
        use|remove|rename)
            COMPREPLY=($(compgen -W "${profiles[*]}" -- "${cur}"))
            ;;
    esac

    return 0
}

complete -F _ccuse ccuse
"#;

pub const FISH_COMPLETION: &'static str = r#"complete -c ccuse -f -n '__fish_use_subcommand' -a 'use' -d 'Use a profile to launch the assistant'
complete -c ccuse -f -n '__fish_use_subcommand' -a 'update' -d 'Update profiles from CC-Switch database'
complete -c ccuse -f -n '__fish_use_subcommand' -a 'list' -d 'List all available profiles'
complete -c ccuse -f -n '__fish_use_subcommand' -a 'add' -d 'Add a new profile interactively'
complete -c ccuse -f -n '__fish_use_subcommand' -a 'remove' -d 'Remove a profile'
complete -c ccuse -f -n '__fish_use_subcommand' -a 'rename' -d 'Rename a profile'
complete -c ccuse -f -n '__fish_use_subcommand' -a 'config-dir' -d 'Show configuration directory'
complete -c ccuse -f -n '__fish_use_subcommand' -a 'completions' -d 'Install shell completions'

complete -c ccuse -f -n '__fish_seen_subcommand_from use remove rename' -a '(ccuse list 2>/dev/null | sed -n "s/^  \\([^ ]*\\).*/\\1/p")'
"#;

/// The shells for which a completion script can be installed.
#[derive(Debug, Clone, Copy, PartialEq, Eq, Structural)]
pub enum Shell {
    Zsh,
    Bash,
    Fish,
}

/// Whether `sub` occurs as a contiguous run of characters in `s`.
pub open spec fn has_substring(s: Seq<char>, sub: Seq<char>) -> bool {
    exists|i: int|
        0 <= i && i + sub.len() <= s.len() && #[trigger] s.subrange(i, i + sub.len()) == sub
}

/// Whether `sub` occurs in `s` starting at position `i`.
fn matches_at(s: &str, sub: &str, i: usize, n: usize, m: usize) -> (r: bool)
    requires
        n == s@.len(),
        m == sub@.len(),
        i + m <= n,
    ensures
        r == (s@.subrange(i as int, i + sub@.len()) == sub@),
{
    let mut k: usize = 0;
    while k < m
        invariant
            k <= m,
            n == s@.len(),
            m == sub@.len(),
            i + m <= n,
            forall|u: int| 0 <= u < k ==> s@[i + u] == sub@[u],
        decreases m - k,
    {
        if s.get_char(i + k) != sub.get_char(k) {
            proof {
                assert(s@.subrange(i as int, i + sub@.len())[k as int] == s@[i + k]);
            }
            return false;
        }
        k += 1;
    }
    proof {
        assert(s@.subrange(i as int, i + sub@.len()) =~= sub@);
    }
    true
}

/// Whether the text `s` contains the text `sub`.
pub fn contains_str(s: &str, sub: &str) -> (r: bool)
    ensures
        r == has_substring(s@, sub@),
{
    let n = s.unicode_len();
    let m = sub.unicode_len();
    if m > n {
        return false;
    }
    if m == 0 {
        proof {
            assert(s@.subrange(0, 0 + sub@.len() as int) =~= sub@);
        }
        return true;
    }
    let mut i: usize = 0;
    while i <= n - m
        invariant
            1 <= m <= n,
            n == s@.len(),
            m == sub@.len(),
            i <= n - m + 1,
            forall|t: int| 0 <= t < i ==> #[trigger] s@.subrange(t, t + sub@.len()) != sub@,
        decreases n + 1 - m - i,
    {
        if matches_at(s, sub, i, n, m) {
            return true;
        }
        i += 1;
    }
    false
}

impl Shell {
    /// The shell recognised in the value of a `SHELL`-style variable: the
    /// first of zsh, bash and fish whose name occurs in the value.
    pub fn classify(shell: &str) -> (r: Option<Shell>)
        ensures
            r == (if has_substring(shell@, "zsh"@) {
                Some(Shell::Zsh)
            } else if has_substring(shell@, "bash"@) {
                Some(Shell::Bash)
            } else if has_substring(shell@, "fish"@) {
                Some(Shell::Fish)
            } else {
                None::<Shell>
            }),
    {
        if contains_str(shell, "zsh") {
            Some(Shell::Zsh)
        } else if contains_str(shell, "bash") {
            Some(Shell::Bash)
        } else if contains_str(shell, "fish") {
            Some(Shell::Fish)
        } else {
            None
        }
    }

    /// The shell's name.
    pub fn name(&self) -> (r: &'static str)
        ensures
            r@ == (match *self {
                Shell::Zsh => "zsh"@,
                Shell::Bash => "bash"@,
                Shell::Fish => "fish"@,
            }),
    {
        match self {
            Shell::Zsh => "zsh",
            Shell::Bash => "bash",
            Shell::Fish => "fish",
        }
    }

    /// The completion script to install for this shell.
    pub fn completion(&self) -> (r: &'static str)
        ensures
            r@ == (match *self {
                Shell::Zsh => ZSH_COMPLETION@,
                Shell::Bash => BASH_COMPLETION@,
                Shell::Fish => FISH_COMPLETION@,
            }),
    {
        match self {
            Shell::Zsh => ZSH_COMPLETION,
            Shell::Bash => BASH_COMPLETION,
            Shell::Fish => FISH_COMPLETION,
        }
    }

    /// Where the completion script lives under the home directory `home`,
    /// and the user-facing form of that directory.
    pub fn config_path(&self, home: &str) -> (r: (String, &'static str))
        ensures
            r.0@ == home@ + (match *self {
                Shell::Zsh => "/.zsh/completions/_ccuse"@,
                Shell::Bash => "/.local/share/bash-completion/completions/ccuse"@,
                Shell::Fish => "/.config/fish/completions/ccuse.fish"@,
            }),
            r.1@ == (match *self {
                Shell::Zsh => "~/.zsh/completions/"@,
                Shell::Bash => "~/.local/share/bash-completion/completions/"@,
                Shell::Fish => "~/.config/fish/completions/"@,
            }),
    {
        match self {
            Shell::Zsh => {
                let mut s = home.to_owned();
                s.append("/.zsh/completions/_ccuse");
                (s, "~/.zsh/completions/")
            },
            Shell::Bash => {
                let mut s = home.to_owned();
                s.append("/.local/share/bash-completion/completions/ccuse");
                (s, "~/.local/share/bash-completion/completions/")
            },
            Shell::Fish => {
                let mut s = home.to_owned();
                s.append("/.config/fish/completions/ccuse.fish");
                (s, "~/.config/fish/completions/")
            },
        }
    }

    /// The line of setup advice shown after installing to `path`.
    pub fn init_line(&self, path: &str) -> (r: String)
        ensures
            r@ == (match *self {
                Shell::Zsh => "# Add to ~/.zshrc or create ~/.zsh/completions:\n# mkdir -p ~/.zsh/completions\n# cp "@
                    + path@ + " ~/.zsh/completions/"@,
                Shell::Bash => "# Add to ~/.bashrc:\nsource "@ + path@,
                Shell::Fish => "# Fish completions are auto-loaded from ~/.config/fish/completions/"@,
            }),
    {
        match self {
            Shell::Zsh => {
                let mut s = String::from_str(
                    "# Add to ~/.zshrc or create ~/.zsh/completions:\n# mkdir -p ~/.zsh/completions\n# cp ",
                );
                s.append(path);
                s.append(" ~/.zsh/completions/");
                s
            },
            Shell::Bash => {
                let mut s = String::from_str("# Add to ~/.bashrc:\nsource ");
                s.append(path);
                s
            },
            Shell::Fish => String::from_str(
                "# Fish completions are auto-loaded from ~/.config/fish/completions/",
            ),
        }
    }
}

} // verus!
