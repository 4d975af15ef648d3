use vstd::prelude::*;

verus! {

/// Strict lexicographic order on character sequences, the order in which
/// Rust sorts `String`s (UTF-8 byte order is code point order).
pub open spec fn seq_lt(a: Seq<char>, b: Seq<char>) -> bool
    decreases a.len(),
{
    if b.len() == 0 {
        false
    } else if a.len() == 0 {
        true
    } else if (a[0] as int) < (b[0] as int) {
        true
    } else if a[0] == b[0] {
        seq_lt(a.drop_first(), b.drop_first())
    } else {
        false
    }
}

/// No sequence comes before itself.
pub proof fn lemma_seq_lt_irreflexive(a: Seq<char>)
    ensures
        !seq_lt(a, a),
    decreases a.len(),
{
    if a.len() > 0 {
        lemma_seq_lt_irreflexive(a.drop_first());
    }
}

/// The order is transitive.
pub proof fn lemma_seq_lt_transitive(a: Seq<char>, b: Seq<char>, c: Seq<char>)
    requires
        seq_lt(a, b),
        seq_lt(b, c),
    ensures
        seq_lt(a, c),
    decreases a.len(),
{
    if a.len() > 0 && b.len() > 0 && c.len() > 0 && a[0] == b[0] && b[0] == c[0] {
        lemma_seq_lt_transitive(a.drop_first(), b.drop_first(), c.drop_first());
    }
}

/// Two different sequences are ordered one way or the other, never both.
pub proof fn lemma_seq_lt_total(a: Seq<char>, b: Seq<char>)
    ensures
        a != b ==> (seq_lt(a, b) || seq_lt(b, a)),
        !(seq_lt(a, b) && seq_lt(b, a)),
    decreases a.len(),
{
    if a.len() > 0 && b.len() > 0 && a[0] == b[0] {
        lemma_seq_lt_total(a.drop_first(), b.drop_first());
        if a.drop_first() == b.drop_first() {
            assert(a =~= seq![a[0]] + a.drop_first());
            assert(b =~= seq![b[0]] + b.drop_first());
        }
    } else if a.len() == 0 && b.len() == 0 {
        assert(a =~= b);
    } else if a.len() > 0 && b.len() > 0 {
        assert((a[0] as int) != (b[0] as int));
    }
}

/// Whether `s` holds the path separator `::` at position `i`.
pub open spec fn is_sep_at(s: Seq<char>, i: int) -> bool {
    0 <= i && i + 1 < s.len() && s[i] == ':' && s[i + 1] == ':'
}

/// The first position at or after `i` where `s` holds `::`.
pub open spec fn sep_from(s: Seq<char>, i: int) -> Option<int>
    decreases s.len() - i,
{
    if i < 0 || i + 1 >= s.len() {
        None
    } else if is_sep_at(s, i) {
        Some(i)
    } else {
        sep_from(s, i + 1)
    }
}

/// The first position of `::` in `s`, as `str::find` reports it (counted in characters).
pub open spec fn path_sep(s: Seq<char>) -> Option<int> {
    sep_from(s, 0)
}

/// `sep_from` finds the first separator at or after `i`.
proof fn lemma_sep_from(s: Seq<char>, i: int)
    requires
        0 <= i,
    ensures
        sep_from(s, i) matches Some(k) ==> i <= k && is_sep_at(s, k) && forall|j: int|
            i <= j < k ==> !is_sep_at(s, j),
        sep_from(s, i) is None ==> forall|j: int| i <= j ==> !is_sep_at(s, j),
    decreases s.len() - i,
{
    if i + 1 < s.len() && !is_sep_at(s, i) {
        lemma_sep_from(s, i + 1);
    }
}

/// `path_sep` is the position of the first `::`, and there is none exactly
/// when no two adjacent characters are both `:`.
pub proof fn lemma_path_sep(s: Seq<char>)
    ensures
        path_sep(s) matches Some(k) ==> 0 <= k && k + 1 < s.len() && s[k] == ':' && s[k + 1]
            == ':' && forall|j: int| 0 <= j < k ==> !(#[trigger] s[j] == ':' && s[j + 1] == ':'),
        path_sep(s) is None <==> forall|j: int|
            0 <= j < s.len() - 1 ==> !(#[trigger] s[j] == ':' && s[j + 1] == ':'),
{
    lemma_sep_from(s, 0);
    if path_sep(s) is None {
        assert forall|j: int| 0 <= j < s.len() - 1 implies !(#[trigger] s[j] == ':' && s[j + 1] == ':') by {
            assert(!is_sep_at(s, j));
        }
    } else {
        let k = path_sep(s)->0;
        assert forall|j: int| 0 <= j < k implies !(#[trigger] s[j] == ':' && s[j + 1] == ':') by {
            assert(!is_sep_at(s, j));
        }
    }
}

/// Whether two strings hold the same characters.
pub fn str_eq(a: &str, b: &str) -> (r: bool)
    ensures
        r == (a@ == b@),
{
    let la = a.unicode_len();
    let lb = b.unicode_len();
    if la != lb {
        return false;
    }
    let mut i: usize = 0;
    while i < la
        invariant
            la == a@.len(),
            lb == b@.len(),
            la == lb,
            i <= la,
            forall|j: int| 0 <= j < i ==> a@[j] == b@[j],
        decreases la - i,
    {
        if a.get_char(i) != b.get_char(i) {
            return false;
        }
        i += 1;
    }
    assert(a@ =~= b@);
    true
}

/// Whether `a` sorts strictly before `b`.
pub fn str_lt(a: &str, b: &str) -> (r: bool)
    ensures
        r == seq_lt(a@, b@),
{
    let la = a.unicode_len();
    let lb = b.unicode_len();
    let mut i: usize = 0;
    assert(a@.skip(0) =~= a@);
    assert(b@.skip(0) =~= b@);
    while i < la && i < lb
        invariant
            la == a@.len(),
            lb == b@.len(),
            i <= la,
            i <= lb,
            seq_lt(a@, b@) == seq_lt(a@.skip(i as int), b@.skip(i as int)),
        decreases la - i,
    {
        let ca = a.get_char(i);
        let cb = b.get_char(i);
        if ca != cb {
            return (ca as u32) < (cb as u32);
        }
        assert(a@.skip(i as int).drop_first() =~= a@.skip(i + 1));
        assert(b@.skip(i as int).drop_first() =~= b@.skip(i + 1));
        i += 1;
    }
    i < lb
}

/// The first position of `::` in `s`.
pub fn find_path_sep(s: &str) -> (r: Option<usize>)
    ensures
        r matches Some(i) ==> path_sep(s@) == Some(i as int) && i + 1 < s@.len(),
        r is None ==> path_sep(s@) is None,
{
    let n = s.unicode_len();
    let mut i: usize = 0;
    while n > 0 && i < n - 1
        invariant
            n == s@.len(),
            path_sep(s@) == sep_from(s@, i as int),
        decreases n - i,
    {
        if s.get_char(i) == ':' && s.get_char(i + 1) == ':' {
            return Some(i);
        }
        i += 1;
    }
    None
}

/// The position of the first `.` in `s`.
pub open spec fn dot_pos(s: Seq<char>) -> Option<int> {
    if exists|i: int| 0 <= i < s.len() && s[i] == '.' {
        Some(choose|i: int| 0 <= i < s.len() && s[i] == '.' && forall|j: int| 0 <= j < i ==> s[j] != '.')
    } else {
        None
    }
}

/// The position of the first `.` in `s`.
pub fn find_dot(s: &str) -> (r: Option<usize>)
    ensures
        match r {
            Some(d) => dot_pos(s@) == Some(d as int) && d < s@.len(),
            None => dot_pos(s@) is None,
        },
{
    let n = s.unicode_len();
    let mut i: usize = 0;
    while i < n
        invariant
            n == s@.len(),
            i <= n,
            forall|j: int| 0 <= j < i ==> s@[j] != '.',
        decreases n - i,
    {
        if s.get_char(i) == '.' {
            proof {
                let c = choose|c: int| 0 <= c < s@.len() && s@[c] == '.' && forall|j: int| 0 <= j < c ==> s@[j] != '.';
                assert(0 <= c < s@.len() && s@[c] == '.' && forall|j: int| 0 <= j < c ==> s@[j] != '.');
                if c > i as int {
                    assert(s@[i as int] != '.');
                }
            }
            return Some(i);
        }
        i += 1;
    }
    None
}

} // verus!
