//! Keeping projects in the order of their lowercased names.
use vstd::prelude::*;
use crate::model::{Project, ProjectView};
use crate::strings::{lowercase, seq_less, str_less, to_lowercase};

verus! {

/// The key projects are ordered by: the lowercased name.
pub open spec fn name_key(p: ProjectView) -> Seq<char> {
    lowercase(p.name)
}

/// `s` with `p` inserted after every project whose key does not sort after
/// `p`'s, scanning from the end: in a list in key order, `p` goes after the
/// projects of equal key.
pub open spec fn insert_by_name(s: Seq<ProjectView>, p: ProjectView) -> Seq<ProjectView>
    decreases s.len(),
{
    if s.len() == 0 {
        seq![p]
    } else if seq_less(name_key(p), name_key(s.last())) {
        insert_by_name(s.drop_last(), p).push(s.last())
    } else {
        s.push(p)
    }
}

/// `s` sorted by key, stably: what `sort_by` with a comparison of the
/// lowercased names gives.
pub open spec fn sort_by_name(s: Seq<ProjectView>) -> Seq<ProjectView>
    decreases s.len(),
{
    if s.len() == 0 {
        s
    } else {
        insert_by_name(sort_by_name(s.drop_last()), s.last())
    }
}

/// Inserting adds one project.
pub proof fn lemma_insert_by_name_len(s: Seq<ProjectView>, p: ProjectView)
    ensures
        insert_by_name(s, p).len() == s.len() + 1,
    decreases s.len(),
{
    if s.len() > 0 {
        lemma_insert_by_name_len(s.drop_last(), p);
    }
}

/// Sorting keeps the length.
pub proof fn lemma_sort_by_name_len(s: Seq<ProjectView>)
    ensures
        sort_by_name(s).len() == s.len(),
    decreases s.len(),
{
    if s.len() > 0 {
        lemma_sort_by_name_len(s.drop_last());
        lemma_insert_by_name_len(sort_by_name(s.drop_last()), s.last());
    }
}

/// The place `insert_by_name` puts `p` at: position `j`, where the projects
/// from `j` on have keys after `p`'s and the one before `j` does not.
pub proof fn lemma_insert_by_name_at(s: Seq<ProjectView>, p: ProjectView, j: int)
    requires
        0 <= j <= s.len(),
        forall|m: int| j <= m < s.len() ==> seq_less(name_key(p), #[trigger] name_key(s[m])),
        j > 0 ==> !seq_less(name_key(p), name_key(s[j - 1])),
    ensures
        insert_by_name(s, p) == s.take(j) + seq![p] + s.skip(j),
    decreases s.len(),
{
    if s.len() == 0 {
        assert(s.take(j) + seq![p] + s.skip(j) =~= seq![p]);
    } else if j == s.len() {
        assert(s.take(j) + seq![p] + s.skip(j) =~= s.push(p));
    } else {
        assert(seq_less(name_key(p), name_key(s[s.len() - 1])));
        let t = s.drop_last();
        assert forall|m: int| j <= m < t.len() implies seq_less(name_key(p), #[trigger] name_key(t[m])) by {
            assert(t[m] == s[m]);
        }
        if j > 0 {
            assert(t[j - 1] == s[j - 1]);
        }
        lemma_insert_by_name_at(t, p, j);
        assert(s.take(j) + seq![p] + s.skip(j) =~= (t.take(j) + seq![p] + t.skip(j)).push(s.last()));
    }
}

/// The keys of a list of projects.
pub open spec fn keys_of(s: Seq<ProjectView>) -> Seq<Seq<char>> {
    s.map_values(|p: ProjectView| name_key(p))
}

/// Inserts `p` into `out`, whose lowercased names `keys` holds, as
/// `insert_by_name` says.
pub fn insert_project(out: &mut Vec<Project>, keys: &mut Vec<String>, p: Project)
    requires
        old(keys).deep_view() == keys_of(old(out).deep_view()),
    ensures
        final(out).deep_view() == insert_by_name(old(out).deep_view(), p@),
        final(keys).deep_view() == keys_of(final(out).deep_view()),
{
    let k = to_lowercase(p.name.as_str());
    let mut j: usize = out.len();
    let ghost s = out.deep_view();
    proof {
        assert(keys.deep_view().len() == keys@.len());
    }
    while j > 0 && str_less(k.as_str(), keys[j - 1].as_str())
        invariant
            s == out.deep_view(),
            keys.deep_view() == keys_of(s),
            keys@.len() == s.len(),
            k@ == name_key(p@),
            j <= s.len(),
            forall|m: int| j <= m < s.len() ==> seq_less(name_key(p@), #[trigger] name_key(s[m])),
        decreases j,
    {
        proof {
            assert(keys.deep_view()[j - 1] == keys@[j - 1]@);
            assert(keys.deep_view()[j - 1] == keys_of(s)[j - 1]);
        }
        j = j - 1;
    }
    proof {
        if j > 0 {
            assert(keys.deep_view()[j - 1] == keys@[j - 1]@);
            assert(keys.deep_view()[j - 1] == keys_of(s)[j - 1]);
        }
        lemma_insert_by_name_at(s, p@, j as int);
    }
    let ghost pv = p@;
    let ghost kv = k@;
    let ghost ks = keys.deep_view();
    out.insert(j, p);
    keys.insert(j, k);
    proof {
        assert(out.deep_view() =~= s.take(j as int) + seq![pv] + s.skip(j as int));
        assert(keys.deep_view() =~= ks.take(j as int) + seq![kv] + ks.skip(j as int));
        assert(keys.deep_view() =~= keys_of(out.deep_view()));
    }
}

} // verus!
