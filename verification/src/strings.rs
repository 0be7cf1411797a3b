//! Text helpers on strings seen as sequences of Unicode scalar values.
use vstd::prelude::*;
use vstd::string::*;

verus! {

/// `a` sorts strictly before `b`: the order of `str`'s `Ord`, which compares
/// UTF-8 bytes and therefore agrees with comparing scalar values one by one.
pub open spec fn seq_less(a: Seq<char>, b: Seq<char>) -> bool
    decreases a.len(),
{
    if a.len() == 0 {
        b.len() > 0
    } else if b.len() == 0 {
        false
    } else if a[0] != b[0] {
        (a[0] as int) < (b[0] as int)
    } else {
        seq_less(a.drop_first(), b.drop_first())
    }
}

/// No string sorts before itself.
pub proof fn lemma_seq_less_irreflexive(a: Seq<char>)
    ensures
        !seq_less(a, a),
    decreases a.len(),
{
    if a.len() > 0 {
        lemma_seq_less_irreflexive(a.drop_first());
    }
}

/// Of two different strings one sorts before the other, and never both.
pub proof fn lemma_seq_less_total(a: Seq<char>, b: Seq<char>)
    ensures
        a != b ==> (seq_less(a, b) || seq_less(b, a)),
        !(seq_less(a, b) && seq_less(b, a)),
    decreases a.len(),
{
    if a.len() > 0 && b.len() > 0 && a[0] == b[0] {
        lemma_seq_less_total(a.drop_first(), b.drop_first());
        if a.drop_first() == b.drop_first() {
            assert(a =~= seq![a[0]] + a.drop_first());
            assert(b =~= seq![b[0]] + b.drop_first());
        }
    } else if a.len() > 0 && b.len() > 0 {
        assert((a[0] as int) != (b[0] as int));
    } else if a.len() == 0 && b.len() == 0 {
        assert(a =~= b);
    }
}

/// The order is transitive.
pub proof fn lemma_seq_less_transitive(a: Seq<char>, b: Seq<char>, c: Seq<char>)
    requires
        seq_less(a, b),
        seq_less(b, c),
    ensures
        seq_less(a, c),
    decreases a.len(),
{
    if a.len() > 0 && b.len() > 0 && c.len() > 0 && a[0] == b[0] && b[0] == c[0] {
        lemma_seq_less_transitive(a.drop_first(), b.drop_first(), c.drop_first());
    }
}

/// Whether `a` sorts strictly before `b` (see `seq_less`).
pub fn str_less(a: &str, b: &str) -> (r: bool)
    ensures
        r == seq_less(a@, b@),
{
    let la = a.unicode_len();
    let lb = b.unicode_len();
    let mut i: usize = 0;
    proof {
        assert(a@.skip(0) =~= a@);
        assert(b@.skip(0) =~= b@);
    }
    while i < la && i < lb
        invariant
            la == a@.len(),
            lb == b@.len(),
            i <= la,
            i <= lb,
            seq_less(a@, b@) == seq_less(a@.skip(i as int), b@.skip(i as int)),
        decreases la - i,
    {
        let ca = a.get_char(i);
        let cb = b.get_char(i);
        if ca != cb {
            proof {
                assert(a@.skip(i as int)[0] == ca);
                assert(b@.skip(i as int)[0] == cb);
            }
            return (ca as u32) < (cb as u32);
        }
        proof {
            assert(a@.skip(i as int).drop_first() =~= a@.skip(i + 1));
            assert(b@.skip(i as int).drop_first() =~= b@.skip(i + 1));
        }
        i = i + 1;
    }
    proof {
        assert(a@.skip(i as int).len() == la - i);
        assert(b@.skip(i as int).len() == lb - i);
    }
    i == la && i < lb
}

/// The decimal digit `d` as a character.
pub open spec fn digit_char(d: nat) -> char {
    (48 + d) as char
}

/// The decimal representation of `n`, as `Display` writes an unsigned integer.
pub open spec fn decimal(n: nat) -> Seq<char>
    decreases n,
{
    if n < 10 {
        seq![digit_char(n)]
    } else {
        decimal(n / 10).push(digit_char(n % 10))
    }
}

fn digit_str(d: u64) -> (s: &'static str)
    requires
        d < 10,
    ensures
        s@ == seq![digit_char(d as nat)],
{
    let digits = "0123456789";
    proof {
        reveal_strlit("0123456789");
    }
    digits.substring_char(d as usize, (d + 1) as usize)
}

/// The decimal representation of `n`.
pub fn decimal_string(n: u64) -> (s: String)
    ensures
        s@ == decimal(n as nat),
    decreases n,
{
    if n < 10 {
        String::from_str(digit_str(n))
    } else {
        let head = decimal_string(n / 10);
        head.concat(digit_str(n % 10))
    }
}


/// Calls `String::push`, which appends `c` to `s`, as its documentation says.
#[verifier::external_body]
pub(crate) fn push_char(s: &mut String, c: char)
    ensures
        final(s)@ == old(s)@.push(c),
{
    s.push(c);
}

/// `s` without its last character (unchanged when empty), as `String::pop` leaves it.
pub fn without_last_char(s: &String) -> (r: String)
    ensures
        r@ == if s@.len() == 0 {
            s@
        } else {
            s@.drop_last()
        },
{
    let n = s.as_str().unicode_len();
    if n == 0 {
        s.clone()
    } else {
        s.as_str().substring_char(0, n - 1).to_owned()
    }
}

/// Whether two strings hold the same characters.
pub fn str_eq(a: &str, b: &str) -> (r: bool)
    ensures
        r == (a@ == b@),
{
    a.to_owned() == b.to_owned()
}

/// `s` without its first `prefix.len()` characters, when `prefix` begins it.
pub fn strip_prefix(s: &str, prefix: &str) -> (r: Option<String>)
    ensures
        r is Some <==> prefix@.is_prefix_of(s@),
        r matches Some(t) ==> t@ == s@.skip(prefix@.len() as int),
{
    let ls = s.unicode_len();
    let lp = prefix.unicode_len();
    if lp > ls {
        return None;
    }
    let head = s.substring_char(0, lp).to_owned();
    let p = prefix.to_owned();
    if head == p {
        let rest = s.substring_char(lp, ls).to_owned();
        Some(rest)
    } else {
        None
    }
}

/// `q` can be read off `n` left to right, skipping characters of `n`: every
/// character of `q` appears in `n`, in order.
pub open spec fn is_subsequence(q: Seq<char>, n: Seq<char>) -> bool
    decreases n.len(),
{
    if q.len() == 0 {
        true
    } else if n.len() == 0 {
        false
    } else if q[0] == n[0] {
        is_subsequence(q.drop_first(), n.drop_first())
    } else {
        is_subsequence(q, n.drop_first())
    }
}

/// The characters of `s`, in order.
pub fn chars_of(s: &str) -> (v: Vec<char>)
    ensures
        v@ == s@,
{
    let n = s.unicode_len();
    let mut v: Vec<char> = Vec::new();
    let mut i: usize = 0;
    while i < n
        invariant
            n == s@.len(),
            i <= n,
            v@ == s@.take(i as int),
        decreases n - i,
    {
        v.push(s.get_char(i));
        proof {
            assert(s@.take(i + 1) =~= s@.take(i as int).push(s@[i as int]));
        }
        i = i + 1;
    }
    proof {
        assert(s@.take(n as int) =~= s@);
    }
    v
}

/// Whether the characters of `query` appear in `name` in order (see
/// `is_subsequence`).
pub fn subsequence_of(query: &str, name: &str) -> (r: bool)
    ensures
        r == is_subsequence(query@, name@),
{
    let q = chars_of(query);
    let n = chars_of(name);
    let mut qi: usize = 0;
    let mut ni: usize = 0;
    proof {
        assert(q@.skip(0) =~= q@);
        assert(n@.skip(0) =~= n@);
    }
    while qi < q.len()
        invariant
            q@ == query@,
            n@ == name@,
            qi <= q.len(),
            ni <= n.len(),
            is_subsequence(q@, n@) == is_subsequence(q@.skip(qi as int), n@.skip(ni as int)),
        decreases n.len() - ni,
    {
        if ni >= n.len() {
            proof {
                assert(n@.skip(ni as int).len() == 0);
            }
            return false;
        }
        proof {
            assert(q@.skip(qi as int)[0] == q@[qi as int]);
            assert(n@.skip(ni as int)[0] == n@[ni as int]);
            assert(n@.skip(ni as int).drop_first() =~= n@.skip(ni + 1));
            assert(q@.skip(qi as int).drop_first() =~= q@.skip(qi + 1));
        }
        if q[qi] == n[ni] {
            qi = qi + 1;
        }
        ni = ni + 1;
    }
    proof {
        assert(q@.skip(qi as int).len() == 0);
    }
    true
}

/// Index of the first line feed in `s`, or `s.len()` when there is none.
pub open spec fn line_end(s: Seq<char>) -> nat
    decreases s.len(),
{
    if s.len() == 0 {
        0
    } else if s[0] == '\n' {
        0
    } else {
        1 + line_end(s.drop_first())
    }
}

/// `line_end` points at a line feed or at the end, and no line feed comes before it.
pub proof fn lemma_line_end(s: Seq<char>)
    ensures
        line_end(s) <= s.len(),
        line_end(s) < s.len() ==> s[line_end(s) as int] == '\n',
        forall|j: int| 0 <= j < line_end(s) ==> s[j] != '\n',
    decreases s.len(),
{
    if s.len() > 0 && s[0] != '\n' {
        lemma_line_end(s.drop_first());
        assert forall|j: int| 0 <= j < line_end(s) implies s[j] != '\n' by {
            if j > 0 {
                assert(s[j] == s.drop_first()[j - 1]);
            }
        }
    }
}

/// A line without the carriage return that ends it, if any.
pub open spec fn strip_cr(l: Seq<char>) -> Seq<char> {
    if l.len() > 0 && l.last() == '\r' {
        l.drop_last()
    } else {
        l
    }
}

/// The lines of `s` as `str::lines` documents them: split at `\n` or
/// `\r\n`, terminators removed, the last terminator optional (a `\r`
/// ending the last, unterminated line stays).
pub open spec fn lines_of(s: Seq<char>) -> Seq<Seq<char>>
    decreases s.len(),
{
    if s.len() == 0 {
        seq![]
    } else {
        let k = line_end(s);
        proof {
            lemma_line_end(s);
        }
        if k >= s.len() {
            seq![s]
        } else {
            seq![strip_cr(s.take(k as int))] + lines_of(s.skip(k + 1 as int))
        }
    }
}

/// The views of a vector of strings.
pub open spec fn views(v: Seq<String>) -> Seq<Seq<char>> {
    v.map_values(|x: String| x@)
}

/// `l` without a final carriage return.
fn without_cr(s: &str, chars: &Vec<char>, start: usize, end: usize) -> (r: String)
    requires
        chars@ == s@,
        start <= end <= s@.len(),
    ensures
        r@ == strip_cr(s@.subrange(start as int, end as int)),
{
    if end > start && chars[end - 1] == '\r' {
        s.substring_char(start, end - 1).to_owned()
    } else {
        s.substring_char(start, end).to_owned()
    }
}

/// The lines of `s` (see `lines_of`).
pub fn split_lines(s: &str) -> (r: Vec<String>)
    ensures
        views(r@) == lines_of(s@),
{
    let chars = chars_of(s);
    let n = chars.len();
    let mut out: Vec<String> = Vec::new();
    let mut start: usize = 0;
    let mut i: usize = 0;
    proof {
        assert(s@.skip(0) =~= s@);
        assert(views(out@) =~= Seq::<Seq<char>>::empty());
    }
    while i < n
        invariant
            chars@ == s@,
            n == s@.len(),
            start <= i <= n,
            forall|j: int| start <= j < i ==> s@[j] != '\n',
            lines_of(s@) == views(out@) + lines_of(s@.skip(start as int)),
        decreases n - i,
    {
        if chars[i] == '\n' {
            let line = without_cr(s, &chars, start, i);
            proof {
                let rest = s@.skip(start as int);
                assert forall|j: int| 0 <= j < i - start implies rest[j] != '\n' by {
                    assert(rest[j] == s@[start + j]);
                }
                assert(rest[i - start] == '\n');
                lemma_line_end(rest);
                assert(line_end(rest) == i - start) by {
                    if line_end(rest) < i - start {
                        assert(rest[line_end(rest) as int] == '\n');
                    }
                }
                assert(rest.take(i - start) =~= s@.subrange(start as int, i as int));
                assert(rest.skip(i - start + 1) =~= s@.skip(i + 1));
                assert(lines_of(rest) =~= seq![line@] + lines_of(s@.skip(i + 1)));
                assert(views(out@.push(line)) =~= views(out@).push(line@));
            }
            out.push(line);
            start = i + 1;
        }
        i = i + 1;
    }
    if start < n {
        let last = s.substring_char(start, n).to_owned();
        proof {
            let rest = s@.skip(start as int);
            lemma_line_end(rest);
            assert forall|j: int| 0 <= j < rest.len() implies rest[j] != '\n' by {
                assert(rest[j] == s@[start + j]);
            }
            assert(line_end(rest) == rest.len()) by {
                if line_end(rest) < rest.len() {
                    assert(rest[line_end(rest) as int] == '\n');
                }
            }
            assert(rest =~= last@);
            assert(views(out@.push(last)) =~= views(out@).push(last@));
        }
        out.push(last);
    } else {
        proof {
            assert(s@.skip(start as int).len() == 0);
            assert(views(out@) + lines_of(s@.skip(start as int)) =~= views(out@));
        }
    }
    out
}

/// What `str::to_lowercase` returns for `s`: the lowercase mapping of each
/// character under Unicode's rules, which needs its tables to be stated.
pub uninterp spec fn lowercase(s: Seq<char>) -> Seq<char>;

/// Calls `str::to_lowercase`. Claims that the result is a function of `s`
/// alone, named `lowercase`, and that the empty string lowercases to the
/// empty string (each character is replaced by its lowercase mapping, so
/// nothing comes of nothing); nothing more is said of it.
#[verifier::external_body]
pub(crate) fn to_lowercase(s: &str) -> (r: String)
    ensures
        r@ == lowercase(s@),
        s@.len() == 0 ==> r@.len() == 0,
{
    s.to_lowercase()
}

/// What `Path::new(p).file_name()` returns for a path `p` that is a `str`:
/// its final component, or `None` when it ends in `..` or has no normal
/// component (as `/`). Stating it needs `Path`'s component parsing.
pub uninterp spec fn path_file_name(p: Seq<char>) -> Option<Seq<char>>;

/// Calls `std::path::Path::file_name` on `path` and converts the component
/// back to a `String` (it is valid UTF-8, being part of a `str`). Claims that
/// the result is a function of `path` alone, named `path_file_name`.
#[verifier::external_body]
pub(crate) fn file_name(path: &str) -> (r: Option<String>)
    ensures
        r matches Some(n) ==> path_file_name(path@) == Some(n@),
        r is None ==> path_file_name(path@) is None,
{
    match std::path::Path::new(path).file_name() {
        Some(n) => match n.to_str() {
            Some(t) => Some(t.to_string()),
            None => None,
        },
        None => None,
    }
}

/// The final component of `path`, or `default` when it has none: what
/// `file_name().and_then(to_str).unwrap_or(default)` gives.
pub open spec fn base_name_or(path: Seq<char>, default: Seq<char>) -> Seq<char> {
    match path_file_name(path) {
        Some(n) => n,
        None => default,
    }
}

/// The final component of `path`, or `default`.
pub fn base_name_or_else(path: &str, default: &str) -> (r: String)
    ensures
        r@ == base_name_or(path@, default@),
{
    match file_name(path) {
        Some(n) => n,
        None => default.to_owned(),
    }
}

/// What `String::from_utf8_lossy` returns for `bytes`: the decoded text,
/// with each maximal invalid sequence replaced by U+FFFD.
pub uninterp spec fn utf8_lossy(bytes: Seq<u8>) -> Seq<char>;

/// Calls `String::from_utf8_lossy`. Claims that the result is a function of
/// the bytes alone, named `utf8_lossy`, and, as its documentation says,
/// that valid UTF-8 decodes to exactly its characters.
#[verifier::external_body]
pub(crate) fn decode_lossy(bytes: &[u8]) -> (r: String)
    ensures
        r@ == utf8_lossy(bytes@),
        vstd::utf8::valid_utf8(bytes@) ==> r@ == vstd::utf8::decode_utf8(bytes@),
{
    String::from_utf8_lossy(bytes).into_owned()
}

} // verus!
