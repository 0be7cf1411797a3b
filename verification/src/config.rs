//! Reading the plugin's configuration: a list of key and value strings, as
//! the host hands it over (each key once).
use vstd::prelude::*;
use crate::model::{Project, ProjectView, SessionStatus, StatusView};
use crate::strings::{base_name_or, base_name_or_else, decimal, decimal_string, digit_char, str_eq};

verus! {

/// Configuration entries, as values.
pub type Config = Seq<(Seq<char>, Seq<char>)>;

/// The value of the first entry with key `key`.
pub open spec fn lookup(cfg: Config, key: Seq<char>) -> Option<Seq<char>>
    decreases cfg.len(),
{
    if cfg.len() == 0 {
        None
    } else if cfg[0].0 == key {
        Some(cfg[0].1)
    } else {
        lookup(cfg.drop_first(), key)
    }
}

/// A found value comes from an entry with that key.
pub proof fn lemma_lookup_found(cfg: Config, key: Seq<char>)
    ensures
        lookup(cfg, key) is Some ==> exists|i: int| 0 <= i < cfg.len() && (#[trigger] cfg[i]).0 == key,
    decreases cfg.len(),
{
    if cfg.len() > 0 && cfg[0].0 != key {
        lemma_lookup_found(cfg.drop_first(), key);
        if lookup(cfg, key) is Some {
            let i = choose|i: int| 0 <= i < cfg.drop_first().len() && (#[trigger] cfg.drop_first()[i]).0 == key;
            assert(cfg[i + 1] == cfg.drop_first()[i]);
        }
    } else if cfg.len() > 0 {
        assert(cfg[0].0 == key);
    }
}

/// The value stored under `key` (see `lookup`).
pub fn lookup_value(cfg: &Vec<(String, String)>, key: &str) -> (r: Option<String>)
    ensures
        r.deep_view() == lookup(cfg.deep_view(), key@),
{
    let ghost c = cfg.deep_view();
    let n = cfg.len();
    let mut i: usize = 0;
    proof {
        assert(c.skip(0) =~= c);
    }
    while i < n
        invariant
            n == c.len(),
            c == cfg.deep_view(),
            i <= n,
            lookup(c, key@) == lookup(c.skip(i as int), key@),
        decreases n - i,
    {
        proof {
            assert(c.skip(i as int)[0] == c[i as int]);
            assert(c.skip(i as int).drop_first() =~= c.skip(i + 1));
        }
        if str_eq(cfg[i].0.as_str(), key) {
            return Some(cfg[i].1.clone());
        }
        i = i + 1;
    }
    None
}

/// A decimal representation is never empty; that of a number from 10 on
/// has at least two digits.
pub proof fn lemma_decimal_len(n: nat)
    ensures
        decimal(n).len() >= 1,
        n >= 10 ==> decimal(n).len() >= 2,
    decreases n,
{
    if n >= 10 {
        lemma_decimal_len(n / 10);
    }
}

/// Different numbers have different decimal representations.
pub proof fn lemma_decimal_injective(n: nat, m: nat)
    requires
        decimal(n) == decimal(m),
    ensures
        n == m,
    decreases n,
{
    lemma_decimal_len(n);
    lemma_decimal_len(m);
    if n < 10 && m < 10 {
        assert(decimal(n)[0] == digit_char(n));
        assert(decimal(m)[0] == digit_char(m));
        assert((digit_char(n) as int) == 48 + n);
        assert((digit_char(m) as int) == 48 + m);
    } else if n >= 10 && m >= 10 {
        assert(decimal(n).drop_last() == decimal(n / 10));
        assert(decimal(m).drop_last() == decimal(m / 10));
        assert(decimal(n).last() == digit_char(n % 10));
        assert(decimal(m).last() == digit_char(m % 10));
        assert((digit_char(n % 10) as int) == 48 + n % 10);
        assert((digit_char(m % 10) as int) == 48 + m % 10);
        lemma_decimal_injective(n / 10, m / 10);
    }
}

/// The key of the `j`-th configured project: `project_<j>`.
pub open spec fn project_key(j: nat) -> Seq<char> {
    "project_"@ + decimal(j)
}

/// Different indices have different keys.
pub proof fn lemma_project_key_injective(j: nat, k: nat)
    requires
        project_key(j) == project_key(k),
    ensures
        j == k,
{
    let p = "project_"@;
    assert(decimal(j) =~= project_key(j).skip(p.len() as int));
    assert(decimal(k) =~= project_key(k).skip(p.len() as int));
    lemma_decimal_injective(j, k);
}

/// The configured project of index `j`: the path under `project_<j>`, named
/// by its final component (`unknown` when it has none), without a session.
pub open spec fn configured_project(path: Seq<char>) -> ProjectView {
    ProjectView { name: base_name_or(path, "unknown"@), path, status: StatusView::NotStarted }
}

/// The keys `project_0` to `project_<n-1>` are all present.
pub open spec fn keys_present(cfg: Config, n: nat) -> bool {
    forall|j: nat| j < n ==> (#[trigger] lookup(cfg, project_key(j))) is Some
}

/// No more keys are present than there are entries.
pub proof fn lemma_keys_present_bound(cfg: Config, n: nat)
    requires
        keys_present(cfg, n),
    ensures
        n <= cfg.len(),
{
    let keys = Seq::new(n, |j: int| project_key(j as nat));
    let cfg_keys = cfg.map_values(|e: (Seq<char>, Seq<char>)| e.0);
    assert(keys.no_duplicates()) by {
        assert forall|a: int, b: int| 0 <= a < keys.len() && 0 <= b < keys.len() && a != b implies keys[a]
            != keys[b] by {
            if keys[a] == keys[b] {
                lemma_project_key_injective(a as nat, b as nat);
            }
        }
    }
    keys.unique_seq_to_set();
    cfg_keys.lemma_cardinality_of_set();
    assert(keys.to_set().subset_of(cfg_keys.to_set())) by {
        assert forall|k: Seq<char>| keys.to_set().contains(k) implies cfg_keys.to_set().contains(k) by {
            let a = choose|a: int| 0 <= a < keys.len() && keys[a] == k;
            assert(lookup(cfg, project_key(a as nat)) is Some);
            lemma_lookup_found(cfg, k);
            let i = choose|i: int| 0 <= i < cfg.len() && (#[trigger] cfg[i]).0 == k;
            assert(cfg_keys[i] == k);
        }
    }
    broadcast use vstd::seq_lib::seq_to_set_is_finite;
    vstd::set_lib::lemma_len_subset(keys.to_set(), cfg_keys.to_set());
}

/// The number of consecutively numbered project keys present from `project_0` on.
pub open spec fn configured_count(cfg: Config) -> nat {
    choose|n: nat| keys_present(cfg, n) && lookup(cfg, project_key(n)) is None
}

/// `configured_count` is the first index whose key is absent.
pub proof fn lemma_configured_count(cfg: Config, n: nat)
    requires
        keys_present(cfg, n),
        lookup(cfg, project_key(n)) is None,
    ensures
        configured_count(cfg) == n,
{
    let c = configured_count(cfg);
    assert(keys_present(cfg, c) && lookup(cfg, project_key(c)) is None);
    if c < n {
        assert(lookup(cfg, project_key(c)) is Some);
    } else if c > n {
        assert(lookup(cfg, project_key(n)) is Some);
    }
}

/// The projects configured one by one, under `project_0`, `project_1`, ...
/// up to the first number without a key.
#[verifier::opaque]
pub open spec fn configured_projects(cfg: Config) -> Seq<ProjectView> {
    Seq::new(configured_count(cfg), |j: int| configured_project(lookup(cfg, project_key(j as nat))->0))
}

/// The key `project_<i>`.
fn project_key_string(i: usize) -> (r: String)
    ensures
        r@ == project_key(i as nat),
{
    String::from_str("project_").concat(decimal_string(i as u64).as_str())
}

/// The projects configured one by one (see `configured_projects`).
pub fn load_configured_projects(cfg: &Vec<(String, String)>) -> (r: Vec<Project>)
    ensures
        r.deep_view() == configured_projects(cfg.deep_view()),
{
    let ghost c = cfg.deep_view();
    let mut out: Vec<Project> = Vec::new();
    let mut i: usize = 0;
    let total = cfg.len();
    loop
        invariant
            c == cfg.deep_view(),
            total == c.len(),
            c.len() == cfg@.len(),
            keys_present(c, i as nat),
            i <= c.len(),
            out.deep_view() == Seq::new(i as nat, |j: int| configured_project(lookup(c, project_key(j as nat))->0)),
        decreases c.len() - i,
    {
        let key = project_key_string(i);
        match lookup_value(cfg, key.as_str()) {
            Some(path) => {
                let name = base_name_or_else(path.as_str(), "unknown");
                let p = Project { name, path, status: SessionStatus::NotStarted };
                assert(p@ == configured_project(lookup(c, project_key(i as nat))->0));
                let ghost before = out.deep_view();
                let ghost pv = p@;
                out.push(p);
                proof {
                    assert(out.deep_view() =~= before.push(pv));
                    assert(keys_present(c, (i + 1) as nat)) by {
                        assert forall|j: nat| j < i + 1 implies (#[trigger] lookup(c, project_key(j))) is Some by {
                            if j < i {
                                assert(lookup(c, project_key(j)) is Some);
                            }
                        }
                    }
                    lemma_keys_present_bound(c, (i + 1) as nat);
                    assert(out.deep_view() =~= Seq::new((i + 1) as nat, |j: int| configured_project(lookup(c, project_key(j as nat))->0)));
                }
                i = i + 1;
            },
            None => {
                proof {
                    lemma_configured_count(c, i as nat);
                    reveal(configured_projects);
                }
                return out;
            },
        }
    }
}

} // verus!
