//! Reading the list of project directories that the scan command prints.
use vstd::prelude::*;
use crate::strings::{base_name_or, base_name_or_else, decode_lossy, lines_of, split_lines, utf8_lossy, views};

verus! {

/// A `(name, path)` pair for each non-empty line, named by the path's final
/// component (`unknown` when it has none).
pub open spec fn dirs_of_lines(lines: Seq<Seq<char>>) -> Seq<(Seq<char>, Seq<char>)>
    decreases lines.len(),
{
    if lines.len() == 0 {
        seq![]
    } else {
        let before = dirs_of_lines(lines.drop_last());
        if lines.last().len() == 0 {
            before
        } else {
            before.push((base_name_or(lines.last(), "unknown"@), lines.last()))
        }
    }
}

/// The directories listed in a scan's output: its bytes decoded (invalid
/// sequences replaced), split into lines, empty lines skipped.
pub open spec fn discovered_dirs_of(stdout: Seq<u8>) -> Seq<(Seq<char>, Seq<char>)> {
    dirs_of_lines(lines_of(utf8_lossy(stdout)))
}

/// The directories listed in a scan's output (see `discovered_dirs_of`).
pub fn parse_scan_output(stdout: &Vec<u8>) -> (r: Vec<(String, String)>)
    ensures
        r.deep_view() == discovered_dirs_of(stdout@),
{
    let text = decode_lossy(stdout.as_slice());
    let lines = split_lines(text.as_str());
    let ghost ls = views(lines@);
    let n = lines.len();
    let mut out: Vec<(String, String)> = Vec::new();
    let mut i: usize = 0;
    proof {
        assert(ls.take(0) =~= Seq::<Seq<char>>::empty());
        assert(out.deep_view() =~= dirs_of_lines(ls.take(0)));
    }
    while i < n
        invariant
            n == lines@.len(),
            ls == views(lines@),
            ls == lines_of(utf8_lossy(stdout@)),
            i <= n,
            out.deep_view() == dirs_of_lines(ls.take(i as int)),
        decreases n - i,
    {
        let line = &lines[i];
        proof {
            assert(ls.take(i + 1).drop_last() =~= ls.take(i as int));
            assert(ls.take(i + 1).last() == line@);
        }
        if !line.as_str().is_empty() {
            let name = base_name_or_else(line.as_str(), "unknown");
            let ghost before = out.deep_view();
            let entry = (name, line.clone());
            let ghost ev = entry.deep_view();
            out.push(entry);
            assert(out.deep_view() =~= before.push(ev));
        }
        i = i + 1;
    }
    assert(ls.take(n as int) =~= ls);
    out
}

} // verus!
