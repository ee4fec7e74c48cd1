//! What the library asks of the Nix evaluator, and how it reads the answer.
use vstd::prelude::*;

use crate::text::same_text;

verus! {

/// Why a configuration could not be located.
#[derive(Debug, Clone, Copy, PartialEq, Eq, Structural)]
pub enum ConfigError {
    /// The operating system has no known kind of configuration.
    UnsupportedOperatingSystem,
    /// The repository is not written `owner/name`.
    InvalidRepository,
    /// The evaluator's output is not a JSON list of strings.
    InvalidPackageList,
}

/// The flake output that holds the configurations for an operating system,
/// given whether the machine carries the NixOS marker file.
pub open spec fn configuration_kind(os: Seq<char>, nixos_marker: bool) -> Option<Seq<char>> {
    if os == "linux"@ {
        Some(
            if nixos_marker {
                "nixosConfigurations"@
            } else {
                "homeConfigurations"@
            },
        )
    } else if os == "macos"@ {
        Some("darwinConfigurations"@)
    } else {
        None
    }
}

/// The flake output holding this machine's configurations: NixOS ones on a
/// Linux machine with the NixOS marker, Home Manager ones on other Linux
/// machines, nix-darwin ones on macOS.
pub fn detect_configuration(os: &str, nixos_marker: bool) -> (r: Result<String, ConfigError>)
    ensures
        match configuration_kind(os@, nixos_marker) {
            Some(kind) => r is Ok && r->Ok_0@ == kind,
            None => r == Err::<String, ConfigError>(ConfigError::UnsupportedOperatingSystem),
        },
{
    if same_text(os, "linux") {
        if nixos_marker {
            Ok(String::from_str("nixosConfigurations"))
        } else {
            Ok(String::from_str("homeConfigurations"))
        }
    } else if same_text(os, "macos") {
        Ok(String::from_str("darwinConfigurations"))
    } else {
        Err(ConfigError::UnsupportedOperatingSystem)
    }
}

/// The attribute path of one host's configuration: `kind.hostname`.
pub fn configuration_attribute(kind: &str, hostname: &str) -> (r: String)
    ensures
        r@ == kind@ + "."@ + hostname@,
{
    let mut r = String::from_str(kind);
    r.append(".");
    r.append(hostname);
    r
}

/// `(builtins.getFlake "<flake>").<configuration>`
pub open spec fn flake_configuration(flake: Seq<char>, configuration: Seq<char>) -> Seq<char> {
    "(builtins.getFlake \""@ + flake + "\")."@ + configuration
}

/// The Nix expression listing the packages of a configuration: its system
/// packages (or an empty list), followed, when asked, by the user's Home
/// Manager packages.
pub open spec fn packages_expression(
    flake: Seq<char>,
    configuration: Seq<char>,
    username: Seq<char>,
    use_system_packages: bool,
    use_home_manager_packages: bool,
) -> Seq<char> {
    let system = if use_system_packages {
        flake_configuration(flake, configuration) + ".config.environment.systemPackages"@
    } else {
        "[]"@
    };
    let home = if use_home_manager_packages {
        " ++ "@ + flake_configuration(flake, configuration) + ".config.home-manager.users."@
            + username + ".home.packages"@
    } else {
        Seq::<char>::empty()
    };
    system + home
}

fn push_flake_configuration(out: &mut String, flake: &str, configuration: &str)
    ensures
        final(out)@ == old(out)@ + flake_configuration(flake@, configuration@),
{
    out.append("(builtins.getFlake \"");
    out.append(flake);
    out.append("\").");
    out.append(configuration);
    assert(final(out)@ =~= old(out)@ + flake_configuration(flake@, configuration@));
}

/// Builds the expression that lists the packages of `configuration` in `flake`.
pub fn nix_packages_expression(
    flake: &str,
    configuration: &str,
    username: &str,
    use_system_packages: bool,
    use_home_manager_packages: bool,
) -> (r: String)
    ensures
        r@ == packages_expression(
            flake@,
            configuration@,
            username@,
            use_system_packages,
            use_home_manager_packages,
        ),
{
    let mut out = String::new();
    if use_system_packages {
        push_flake_configuration(&mut out, flake, configuration);
        out.append(".config.environment.systemPackages");
    } else {
        out.append("[]");
    }
    let ghost system = out@;
    if use_home_manager_packages {
        out.append(" ++ ");
        push_flake_configuration(&mut out, flake, configuration);
        out.append(".config.home-manager.users.");
        out.append(username);
        out.append(".home.packages");
        assert(out@ =~= system + (" ++ "@ + flake_configuration(flake@, configuration@)
            + ".config.home-manager.users."@ + username@ + ".home.packages"@));
    } else {
        assert(out@ =~= system + Seq::<char>::empty());
    }
    out
}

/// The function applied to each package to keep only its name.
pub open spec fn package_name_function() -> Seq<char> {
    "map (pkg: (builtins.parseDrvName pkg.name).name)"@
}

/// The arguments of the `nix` command that evaluates `expression` to a JSON
/// list of package names.
pub open spec fn evaluation_arguments(expression: Seq<char>) -> Seq<Seq<char>> {
    seq![
        "eval"@,
        "--impure"@,
        "--json"@,
        "--expr"@,
        expression,
        "--apply"@,
        package_name_function(),
    ]
}

pub fn nix_eval_arguments(expression: &str) -> (r: Vec<String>)
    ensures
        r.deep_view() == evaluation_arguments(expression@),
{
    let mut r: Vec<String> = Vec::new();
    r.push(String::from_str("eval"));
    r.push(String::from_str("--impure"));
    r.push(String::from_str("--json"));
    r.push(String::from_str("--expr"));
    r.push(String::from_str(expression));
    r.push(String::from_str("--apply"));
    r.push(String::from_str("map (pkg: (builtins.parseDrvName pkg.name).name)"));
    assert(r.deep_view() =~= evaluation_arguments(expression@));
    r
}

/// Packages that every configuration of these kinds brings along and that
/// no one maintains an update for in the package repository.
pub open spec fn common_extras() -> Seq<Seq<char>> {
    seq![
        "nix"@,
        "nix-info"@,
        "home-configuration-reference-manpage"@,
        "hm-session-vars.sh"@,
        "dummy-fc-dir1"@,
        "dummy-fc-dir2"@,
        "darwin-uninstaller"@,
        "darwin-version"@,
        "darwin-rebuild"@,
        "darwin-option"@,
        "darwin-manpages"@,
        "darwin-manual-html"@,
        "darwin-help"@,
    ]
}

pub open spec fn is_kept_package(name: Seq<char>) -> bool {
    !common_extras().contains(name)
}

pub fn common_extra_packages() -> (r: Vec<&'static str>)
    ensures
        r@.map_values(|s: &str| s@) == common_extras(),
{
    let r = vec![
        "nix",
        "nix-info",
        // home-manager
        "home-configuration-reference-manpage",
        "hm-session-vars.sh",
        // fontconfig module
        "dummy-fc-dir1",
        "dummy-fc-dir2",
        // nix-darwin
        "darwin-uninstaller",
        "darwin-version",
        "darwin-rebuild",
        "darwin-option",
        "darwin-manpages",
        "darwin-manual-html",
        "darwin-help",
    ];
    assert(r@.map_values(|s: &str| s@) =~= common_extras());
    r
}

/// Whether `name` is one of the common extra packages.
pub fn is_common_extra(name: &str) -> (r: bool)
    ensures
        r == common_extras().contains(name@),
{
    let extras = common_extra_packages();
    let ghost names = extras@.map_values(|s: &str| s@);
    let n = extras.len();
    let mut i: usize = 0;
    while i < n
        invariant
            n == extras@.len(),
            names == extras@.map_values(|s: &str| s@),
            names == common_extras(),
            forall|k: int| 0 <= k < i ==> names[k] != name@,
        decreases n - i,
    {
        if same_text(name, extras[i]) {
            assert(names[i as int] == name@);
            return true;
        }
        i = i + 1;
    }
    assert(!names.contains(name@));
    false
}

/// Removes the common extra packages, keeping the others in order.
pub fn remove_common_extras(packages: &mut Vec<String>)
    ensures
        final(packages).deep_view() == old(packages).deep_view().filter(
            |p: Seq<char>| is_kept_package(p),
        ),
{
    let ghost all = packages.deep_view();
    let ghost keep = |p: Seq<char>| is_kept_package(p);
    let mut kept: Vec<String> = Vec::new();
    let n = packages.len();
    let mut i: usize = 0;
    while i < n
        invariant
            n == packages@.len(),
            all == packages.deep_view(),
            keep == (|p: Seq<char>| is_kept_package(p)),
            i <= n,
            kept.deep_view() == all.subrange(0, i as int).filter(keep),
        decreases n - i,
    {
        let name = &packages[i];
        proof {
            assert(all.subrange(0, i + 1) =~= all.subrange(0, i as int).push(name@));
            all.subrange(0, i as int).lemma_filter_push(name@, keep);
        }
        if !is_common_extra(name.as_str()) {
            let ghost before = kept.deep_view();
            kept.push(name.clone());
            assert(kept.deep_view() =~= before.push(name@));
        }
        i = i + 1;
    }
    assert(all.subrange(0, n as int) =~= all);
    *packages = kept;
}

#[verifier::external_type_specification]
#[verifier::external_body]
pub struct ExJsonError(serde_json::Error);

/// The list of strings that a JSON text encodes, if it encodes one.
pub uninterp spec fn json_string_list(text: Seq<char>) -> Option<Seq<Seq<char>>>;

/// Relies on serde_json::from_str: decoding a JSON array of strings succeeds
/// or fails, and gives its strings, depending on the text alone.
#[verifier::external_body]
fn decode_string_list(text: &str) -> (r: Result<Vec<String>, serde_json::Error>)
    ensures
        match r {
            Ok(v) => json_string_list(text@) == Some(v.deep_view()),
            Err(_) => json_string_list(text@) is None,
        },
{
    serde_json::from_str::<Vec<String>>(text)
}

/// Reads the evaluator's output, a JSON list of package names, and drops
/// the common extra packages from it.
pub fn package_names(json: &str) -> (r: Result<Vec<String>, ConfigError>)
    ensures
        match json_string_list(json@) {
            Some(names) => r is Ok && r->Ok_0.deep_view() == names.filter(
                |p: Seq<char>| is_kept_package(p),
            ),
            None => r == Err::<Vec<String>, ConfigError>(ConfigError::InvalidPackageList),
        },
{
    match decode_string_list(json) {
        Ok(names) => {
            let mut names = names;
            remove_common_extras(&mut names);
            Ok(names)
        },
        Err(_) => Err(ConfigError::InvalidPackageList),
    }
}

} // verus!
