//! The `napi` section of a project configuration.

use vstd::prelude::*;
use vstd::string::*;

use crate::text::{concat, same_text};

verus! {

/// The `napi` section.
#[derive(Debug)]
pub struct NapiConfig {
    /// Cargo features of the crate that is bound.
    pub features: Option<Vec<String>>,
    /// Whether its default features are on.
    pub default_features: Option<bool>,
    /// The targets to build addons for. The host, where there is no list.
    pub targets: Option<Vec<Target>>,
}

impl Default for NapiConfig {
    fn default() -> (r: Self)
        ensures
            r.features is None,
            r.default_features is None,
            r.targets is None,
    {
        NapiConfig { features: None, default_features: None, targets: None }
    }
}

/// A platform that an addon can be built for.
#[derive(Clone, Copy, Debug, Hash, PartialEq, Eq, Structural)]
pub enum Target {
    Aarch64AppleDarwin,
    X86_64UnknownLinuxGnu,
}

/// Why there are no targets to build for.
#[derive(Debug)]
pub enum TargetsError {
    /// The list is there, and empty.
    Empty,
    /// There is no list, and no target for the host.
    UnsupportedHost { os: String, arch: String },
}

/// A text that names no target.
#[derive(Debug)]
pub struct UnsupportedTarget {
    pub text: String,
}

impl Target {
    /// The target triple.
    pub open spec fn triple_text(self) -> Seq<char> {
        match self {
            Target::Aarch64AppleDarwin => "aarch64-apple-darwin"@,
            Target::X86_64UnknownLinuxGnu => "x86_64-unknown-linux-gnu"@,
        }
    }

    /// The platform and architecture as Node.js names them.
    pub open spec fn loader_key_text(self) -> Seq<char> {
        match self {
            Target::Aarch64AppleDarwin => "darwin-arm64"@,
            Target::X86_64UnknownLinuxGnu => "linux-x64"@,
        }
    }

    /// The target that `text` names: by its triple, by a platform with Rust's name for the
    /// architecture, or by its loader key.
    pub open spec fn named(text: Seq<char>) -> Option<Target> {
        if text == "aarch64-apple-darwin"@ || text == "darwin-aarch64"@ || text == "darwin-arm64"@ {
            Some(Target::Aarch64AppleDarwin)
        } else if text == "x86_64-unknown-linux-gnu"@ || text == "linux-x86_64"@ || text
            == "linux-x64"@ {
            Some(Target::X86_64UnknownLinuxGnu)
        } else {
            None
        }
    }

    /// The target of a host with the given names for its system and architecture.
    pub open spec fn of_host(os: Seq<char>, arch: Seq<char>) -> Option<Target> {
        if os == "macos"@ && arch == "aarch64"@ {
            Some(Target::Aarch64AppleDarwin)
        } else if os == "linux"@ && arch == "x86_64"@ {
            Some(Target::X86_64UnknownLinuxGnu)
        } else {
            None
        }
    }

    pub fn triple(&self) -> (r: &'static str)
        ensures
            r@ == self.triple_text(),
    {
        match self {
            Target::Aarch64AppleDarwin => "aarch64-apple-darwin",
            Target::X86_64UnknownLinuxGnu => "x86_64-unknown-linux-gnu",
        }
    }

    pub fn loader_key(&self) -> (r: &'static str)
        ensures
            r@ == self.loader_key_text(),
    {
        match self {
            Target::Aarch64AppleDarwin => "darwin-arm64",
            Target::X86_64UnknownLinuxGnu => "linux-x64",
        }
    }

    /// The file name of the addon that is built for the target.
    pub fn addon_filename(&self) -> (r: String)
        ensures
            r@ == self.loader_key_text() + ".node"@,
    {
        concat(self.loader_key(), ".node")
    }

    pub fn is_darwin(&self) -> (r: bool)
        ensures
            r == (*self == Target::Aarch64AppleDarwin),
    {
        matches!(self, Target::Aarch64AppleDarwin)
    }

    /// The target of the host, given Rust's names for its system and architecture.
    pub fn host(os: &str, arch: &str) -> (r: Result<Target, TargetsError>)
        ensures
            match r {
                Ok(t) => Target::of_host(os@, arch@) == Some(t),
                Err(e) => {
                    &&& Target::of_host(os@, arch@) is None
                    &&& e matches TargetsError::UnsupportedHost { os: o, arch: a } && o@ == os@
                        && a@ == arch@
                },
            },
    {
        if same_text(os, "macos") && same_text(arch, "aarch64") {
            Ok(Target::Aarch64AppleDarwin)
        } else if same_text(os, "linux") && same_text(arch, "x86_64") {
            Ok(Target::X86_64UnknownLinuxGnu)
        } else {
            Err(TargetsError::UnsupportedHost { os: os.to_owned(), arch: arch.to_owned() })
        }
    }

    pub fn from_str(s: &str) -> (r: Result<Target, UnsupportedTarget>)
        ensures
            match r {
                Ok(t) => Target::named(s@) == Some(t),
                Err(e) => Target::named(s@) is None && e.text@ == s@,
            },
    {
        if same_text(s, "aarch64-apple-darwin") || same_text(s, "darwin-aarch64") || same_text(
            s,
            "darwin-arm64",
        ) {
            Ok(Target::Aarch64AppleDarwin)
        } else if same_text(s, "x86_64-unknown-linux-gnu") || same_text(s, "linux-x86_64")
            || same_text(s, "linux-x64") {
            Ok(Target::X86_64UnknownLinuxGnu)
        } else {
            Err(UnsupportedTarget { text: s.to_owned() })
        }
    }

    pub fn try_from(value: String) -> (r: Result<Target, UnsupportedTarget>)
        ensures
            match r {
                Ok(t) => Target::named(value@) == Some(t),
                Err(e) => Target::named(value@) is None && e.text@ == value@,
            },
    {
        Target::from_str(value.as_str())
    }

    /// The target as it is shown: its triple.
    pub fn to_string(&self) -> (r: String)
        ensures
            r@ == self.triple_text(),
    {
        self.triple().to_owned()
    }
}

impl TargetsError {
    /// The text shown to the user.
    pub open spec fn message_text(self) -> Seq<char> {
        match self {
            TargetsError::Empty => "The `napi.targets` list must not be empty"@,
            TargetsError::UnsupportedHost { os, arch } => "Unsupported host target "@ + os@ + "/"@
                + arch@
                + ". Configure `napi.targets` with one of: aarch64-apple-darwin, x86_64-unknown-linux-gnu"@,
        }
    }

    pub fn message(&self) -> (r: String)
        ensures
            r@ == self.message_text(),
    {
        match self {
            TargetsError::Empty => "The `napi.targets` list must not be empty".to_owned(),
            TargetsError::UnsupportedHost { os, arch } => {
                let mut r = "Unsupported host target ".to_owned();
                r.append(os.as_str());
                r.append("/");
                r.append(arch.as_str());
                r.append(". Configure `napi.targets` with one of: aarch64-apple-darwin, x86_64-unknown-linux-gnu");
                r
            },
        }
    }
}

impl UnsupportedTarget {
    /// The text shown to the user.
    pub fn message(&self) -> (r: String)
        ensures
            r@ == "Unsupported target: '"@ + self.text@ + "'"@,
    {
        let mut r = "Unsupported target: '".to_owned();
        r.append(self.text.as_str());
        r.append("'");
        r
    }
}

impl NapiConfig {
    /// Whether `r` is what the configuration gives as targets on a host with the given names for
    /// its system and architecture.
    pub open spec fn gives_targets(
        self,
        os: Seq<char>,
        arch: Seq<char>,
        r: Result<Vec<Target>, TargetsError>,
    ) -> bool {
        match self.targets {
            Some(targets) => if targets@.len() == 0 {
                r matches Err(TargetsError::Empty)
            } else {
                r matches Ok(list) && list@ == targets@
            },
            None => match Target::of_host(os, arch) {
                Some(t) => r matches Ok(list) && list@ == seq![t],
                None => r matches Err(TargetsError::UnsupportedHost { os: o, arch: a }) && o@ == os
                    && a@ == arch,
            },
        }
    }

    /// The targets to build for, given Rust's names for the host's system and architecture.
    pub fn targets(&self, os: &str, arch: &str) -> (r: Result<Vec<Target>, TargetsError>)
        ensures
            self.gives_targets(os@, arch@, r),
    {
        match &self.targets {
            Some(targets) => if targets.len() == 0 {
                Err(TargetsError::Empty)
            } else {
                let list = targets.clone();
                assert(list@ =~= targets@);
                Ok(list)
            },
            None => match Target::host(os, arch) {
                Ok(t) => {
                    let mut list: Vec<Target> = Vec::new();
                    list.push(t);
                    assert(list@ =~= seq![t]);
                    Ok(list)
                },
                Err(e) => Err(e),
            },
        }
    }
}

/// A target is found again by its triple and by its loader key.
pub proof fn law_target_names_parse_back(target: Target)
    ensures
        Target::named(target.triple_text()) == Some(target),
        Target::named(target.loader_key_text()) == Some(target),
{
    reveal_strlit("aarch64-apple-darwin");
    reveal_strlit("darwin-aarch64");
    reveal_strlit("darwin-arm64");
    reveal_strlit("x86_64-unknown-linux-gnu");
    reveal_strlit("linux-x86_64");
    reveal_strlit("linux-x64");
    assert("linux-x64"@[0] == 'l');
    assert("x86_64-unknown-linux-gnu"@[0] == 'x');
    assert("darwin-arm64"@[0] == 'd');
    assert("darwin-aarch64"@[0] == 'd');
    assert("aarch64-apple-darwin"@[0] == 'a');
}

/// Addons of different targets have different file names, so they can stand in one directory.
pub proof fn law_addon_filenames_are_distinct(a: Target, b: Target)
    ensures
        a.loader_key_text() + ".node"@ == b.loader_key_text() + ".node"@ ==> a == b,
{
    reveal_strlit("darwin-arm64");
    reveal_strlit("linux-x64");
    assert((a.loader_key_text() + ".node"@)[0] == a.loader_key_text()[0]);
    assert((b.loader_key_text() + ".node"@)[0] == b.loader_key_text()[0]);
}

proof fn lemma_target_names_differ()
    ensures
        "aarch64-apple-darwin"@ != "x86_64-unknown-linux-gnu"@,
        "aarch64-apple-darwin"@ != "linux-x86_64"@,
        "aarch64-apple-darwin"@ != "linux-x64"@,
        "darwin-aarch64"@ != "x86_64-unknown-linux-gnu"@,
        "darwin-aarch64"@ != "linux-x86_64"@,
        "darwin-aarch64"@ != "linux-x64"@,
        "darwin-arm64"@ != "x86_64-unknown-linux-gnu"@,
        "darwin-arm64"@ != "linux-x86_64"@,
        "darwin-arm64"@ != "linux-x64"@,
        "macos"@ != "linux"@,
{
    reveal_strlit("aarch64-apple-darwin");
    reveal_strlit("darwin-aarch64");
    reveal_strlit("darwin-arm64");
    reveal_strlit("x86_64-unknown-linux-gnu");
    reveal_strlit("linux-x86_64");
    reveal_strlit("linux-x64");
    reveal_strlit("macos");
    reveal_strlit("linux");
    assert("linux-x64"@[0] == 'l');
    assert("linux-x86_64"@[0] == 'l');
    assert("x86_64-unknown-linux-gnu"@[0] == 'x');
    assert("darwin-arm64"@[0] == 'd');
    assert("darwin-aarch64"@[0] == 'd');
    assert("aarch64-apple-darwin"@[0] == 'a');
    assert("macos"@[0] == 'm');
    assert("linux"@[0] == 'l');
}

/// A target has three names, and nothing else names it.
pub proof fn law_a_target_has_three_names(text: Seq<char>)
    ensures
        Target::named(text) == Some(Target::Aarch64AppleDarwin) <==> text
            == "aarch64-apple-darwin"@ || text == "darwin-aarch64"@ || text == "darwin-arm64"@,
        Target::named(text) == Some(Target::X86_64UnknownLinuxGnu) <==> text
            == "x86_64-unknown-linux-gnu"@ || text == "linux-x86_64"@ || text == "linux-x64"@,
{
    lemma_target_names_differ();
}

/// Only macOS on `aarch64` and Linux on `x86_64` are hosts with a target.
pub proof fn law_two_hosts_have_a_target(os: Seq<char>, arch: Seq<char>)
    ensures
        Target::of_host(os, arch) == Some(Target::Aarch64AppleDarwin) <==> os == "macos"@ && arch
            == "aarch64"@,
        Target::of_host(os, arch) == Some(Target::X86_64UnknownLinuxGnu) <==> os == "linux"@ && arch
            == "x86_64"@,
{
    lemma_target_names_differ();
}

/// A configuration gives its list of targets, whatever the host. An empty list is an error. Without
/// a list it gives the target of the host, and an error that names the host where it has none.
pub proof fn law_a_list_of_targets_wins_over_the_host(
    config: NapiConfig,
    os: Seq<char>,
    arch: Seq<char>,
    r: Result<Vec<Target>, TargetsError>,
)
    requires
        config.gives_targets(os, arch, r),
    ensures
        config.targets matches Some(list) ==> list@.len() > 0 ==> (r matches Ok(given) && given@
            == list@),
        r matches Err(TargetsError::Empty) <==> (config.targets matches Some(list) && list@.len()
            == 0),
        config.targets is None && os == "macos"@ && arch == "aarch64"@ ==> (r matches Ok(given)
            && given@ == seq![Target::Aarch64AppleDarwin]),
        config.targets is None && os == "linux"@ && arch == "x86_64"@ ==> (r matches Ok(given)
            && given@ == seq![Target::X86_64UnknownLinuxGnu]),
        r matches Err(TargetsError::UnsupportedHost { os: o, arch: a }) ==> config.targets is None
            && o@ == os && a@ == arch && !(os == "macos"@ && arch == "aarch64"@) && !(os
            == "linux"@ && arch == "x86_64"@),
        r matches Ok(given) ==> given@.len() > 0,
{
    lemma_target_names_differ();
}

/// Triples and loader keys are those of the platforms.
pub proof fn law_targets_are_known_by_their_platforms()
    ensures
        Target::Aarch64AppleDarwin.triple_text() == "aarch64-apple-darwin"@,
        Target::Aarch64AppleDarwin.loader_key_text() == "darwin-arm64"@,
        Target::X86_64UnknownLinuxGnu.triple_text() == "x86_64-unknown-linux-gnu"@,
        Target::X86_64UnknownLinuxGnu.loader_key_text() == "linux-x64"@,
{
}

/// The message about an unsupported host names the host and the targets that there are.
pub proof fn law_the_message_names_the_host(error: TargetsError)
    ensures
        error matches TargetsError::UnsupportedHost { os, arch } ==> error.message_text()
            == "Unsupported host target "@ + os@ + "/"@ + arch@
            + ". Configure `napi.targets` with one of: "@
            + Target::Aarch64AppleDarwin.triple_text() + ", "@
            + Target::X86_64UnknownLinuxGnu.triple_text(),
        error matches TargetsError::Empty ==> error.message_text()
            == "The `napi.targets` list must not be empty"@,
{
    if let TargetsError::UnsupportedHost { os, arch } = error {
        reveal_strlit(
            ". Configure `napi.targets` with one of: aarch64-apple-darwin, x86_64-unknown-linux-gnu",
        );
        reveal_strlit(". Configure `napi.targets` with one of: ");
        reveal_strlit("aarch64-apple-darwin");
        reveal_strlit(", ");
        reveal_strlit("x86_64-unknown-linux-gnu");
        let tail = ". Configure `napi.targets` with one of: "@ + "aarch64-apple-darwin"@ + ", "@
            + "x86_64-unknown-linux-gnu"@;
        assert(tail
            =~= ". Configure `napi.targets` with one of: aarch64-apple-darwin, x86_64-unknown-linux-gnu"@);
        let head = "Unsupported host target "@ + os@ + "/"@ + arch@;
        assert(head + tail =~= head + ". Configure `napi.targets` with one of: "@
            + "aarch64-apple-darwin"@ + ", "@ + "x86_64-unknown-linux-gnu"@);
    }
}

} // verus!
