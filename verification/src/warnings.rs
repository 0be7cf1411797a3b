//! The warnings the sidebar gives about its configuration, as lines of text.
use vstd::prelude::*;
use crate::config::{configured_projects, load_configured_projects, lookup, lookup_value, Config};
use crate::model::{Project, ProjectView};
use crate::strings::{decimal, decimal_string, str_eq};

verus! {

/// The warning for a verbosity other than `minimal` and `full`.
pub open spec fn unknown_verbosity_line(value: Seq<char>) -> Seq<char> {
    "WARNING: Unknown verbosity '"@ + value + "', defaulting to 'full'"@
}

/// The warning for a configured project whose path starts with `~`.
pub open spec fn tilde_path_line(index: nat, path: Seq<char>) -> Seq<char> {
    "WARNING: project_"@ + decimal(index) + " uses tilde path '"@ + path + "'. Use absolute paths."@
}

/// The warning for a project name that a later configured project shares.
pub open spec fn duplicate_name_line(name: Seq<char>) -> Seq<char> {
    "WARNING: Duplicate project basename '"@ + name + "'. Session matching will be ambiguous."@
}

/// The warning about the verbosity, if it is set to an unknown value.
pub open spec fn verbosity_warnings(cfg: Config) -> Seq<Seq<char>> {
    match lookup(cfg, "verbosity"@) {
        Some(v) => if v != "minimal"@ && v != "full"@ {
            seq![unknown_verbosity_line(v)]
        } else {
            seq![]
        },
        None => seq![],
    }
}

/// A warning for each of the first `n` projects whose path starts with `~`,
/// in order.
pub open spec fn tilde_warnings(ps: Seq<ProjectView>, n: nat) -> Seq<Seq<char>>
    decreases n,
{
    if n == 0 {
        seq![]
    } else {
        let before = tilde_warnings(ps, (n - 1) as nat);
        let path = ps[n - 1].path;
        if path.len() > 0 && path[0] == '~' {
            before.push(tilde_path_line((n - 1) as nat, path))
        } else {
            before
        }
    }
}

/// A later project has the name of project `i`.
pub open spec fn has_later_namesake(ps: Seq<ProjectView>, i: int) -> bool {
    exists|j: int| i < j < ps.len() && #[trigger] ps[j].name == ps[i].name
}

/// A warning for each of the first `n` projects whose name a later project
/// shares, in order.
pub open spec fn duplicate_warnings(ps: Seq<ProjectView>, n: nat) -> Seq<Seq<char>>
    decreases n,
{
    if n == 0 {
        seq![]
    } else {
        let before = duplicate_warnings(ps, (n - 1) as nat);
        if has_later_namesake(ps, n - 1) {
            before.push(duplicate_name_line(ps[n - 1].name))
        } else {
            before
        }
    }
}

/// The warnings about a configuration: an unknown verbosity; without a
/// scan directory, the configured projects whose paths start with `~`, then
/// those whose names later ones share.
pub open spec fn load_warning_lines(cfg: Config) -> Seq<Seq<char>> {
    let ps = configured_projects(cfg);
    verbosity_warnings(cfg) + if lookup(cfg, "scan_dir"@) is None {
        tilde_warnings(ps, ps.len()) + duplicate_warnings(ps, ps.len())
    } else {
        seq![]
    }
}

/// Whether a later project than project `i` has its name (see `has_later_namesake`).
fn later_namesake(projects: &Vec<Project>, i: usize) -> (r: bool)
    requires
        i < projects.len(),
    ensures
        r == has_later_namesake(projects.deep_view(), i as int),
{
    let ghost ps = projects.deep_view();
    let n = projects.len();
    let mut j: usize = i + 1;
    while j < n
        invariant
            n == ps.len(),
            ps == projects.deep_view(),
            i < n,
            i + 1 <= j <= n,
            forall|k: int| i < k < j ==> #[trigger] ps[k].name != ps[i as int].name,
        decreases n - j,
    {
        if str_eq(projects[j].name.as_str(), projects[i].name.as_str()) {
            assert(ps[j as int].name == ps[i as int].name);
            return true;
        }
        j = j + 1;
    }
    false
}

/// The warnings about a configuration (see `load_warning_lines`).
pub fn load_warnings(configuration: &Vec<(String, String)>) -> (r: Vec<String>)
    ensures
        r.deep_view() == load_warning_lines(configuration.deep_view()),
{
    let ghost cfg = configuration.deep_view();
    let mut lines: Vec<String> = Vec::new();
    match lookup_value(configuration, "verbosity") {
        Some(v) => {
            if !str_eq(v.as_str(), "minimal") && !str_eq(v.as_str(), "full") {
                lines.push(String::from_str("WARNING: Unknown verbosity '").concat(v.as_str()).concat(
                    "', defaulting to 'full'",
                ));
            }
        },
        None => {},
    }
    assert(lines.deep_view() =~= verbosity_warnings(cfg));
    if lookup_value(configuration, "scan_dir").is_some() {
        assert(lines.deep_view() =~= load_warning_lines(cfg));
        return lines;
    }
    let projects = load_configured_projects(configuration);
    let ghost ps = projects.deep_view();
    let ghost head = lines.deep_view();
    let n = projects.len();
    let mut i: usize = 0;
    while i < n
        invariant
            n == ps.len(),
            ps == projects.deep_view(),
            i <= n,
            lines.deep_view() == head + tilde_warnings(ps, i as nat),
        decreases n - i,
    {
        let path = projects[i].path.as_str();
        if path.unicode_len() > 0 && path.get_char(0) == '~' {
            let line = String::from_str("WARNING: project_").concat(decimal_string(i as u64).as_str()).concat(
                " uses tilde path '",
            ).concat(path).concat("'. Use absolute paths.");
            let ghost before = lines.deep_view();
            lines.push(line);
            assert(lines.deep_view() =~= before.push(tilde_path_line(i as nat, ps[i as int].path)));
        }
        i = i + 1;
    }
    let ghost mid = lines.deep_view();
    let mut k: usize = 0;
    while k < n
        invariant
            n == ps.len(),
            ps == projects.deep_view(),
            k <= n,
            lines.deep_view() == mid + duplicate_warnings(ps, k as nat),
        decreases n - k,
    {
        if later_namesake(&projects, k) {
            let line = String::from_str("WARNING: Duplicate project basename '").concat(
                projects[k].name.as_str(),
            ).concat("'. Session matching will be ambiguous.");
            let ghost before = lines.deep_view();
            lines.push(line);
            assert(lines.deep_view() =~= before.push(duplicate_name_line(ps[k as int].name)));
        }
        k = k + 1;
    }
    assert(lines.deep_view() =~= load_warning_lines(cfg));
    lines
}

} // verus!
