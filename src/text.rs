//! Character-level text operations with their meaning stated over `Seq<char>`.
use vstd::prelude::*;

verus! {

/// `s` with every occurrence of `pat` removed, occurrences being found from
/// the left without overlapping one another.
pub open spec fn without(s: Seq<char>, pat: Seq<char>) -> Seq<char>
    decreases s.len(),
{
    if pat.len() == 0 || s.len() < pat.len() {
        s
    } else if s.subrange(0, pat.len() as int) == pat {
        without(s.subrange(pat.len() as int, s.len() as int), pat)
    } else {
        seq![s[0]] + without(s.subrange(1, s.len() as int), pat)
    }
}

/// The characters of `s`, one by one.
pub fn chars_of(s: &str) -> (r: Vec<char>)
    ensures
        r@ == s@,
{
    let n = s.unicode_len();
    let mut r: Vec<char> = Vec::new();
    let mut i: usize = 0;
    while i < n
        invariant
            n == s@.len(),
            i <= n,
            r@ == s@.subrange(0, i as int),
        decreases n - i,
    {
        r.push(s.get_char(i));
        i += 1;
        assert(r@ =~= s@.subrange(0, i as int));
    }
    assert(r@ =~= s@);
    r
}

/// Whether `pat` occurs in `s` at position `at`.
fn occurs_at(s: &Vec<char>, pat: &Vec<char>, at: usize) -> (r: bool)
    requires
        at + pat.len() <= s.len(),
    ensures
        r == (s@.subrange(at as int, at + pat.len()) == pat@),
{
    let mut k: usize = 0;
    while k < pat.len()
        invariant
            at + pat.len() <= s.len(),
            k <= pat.len(),
            forall|j: int| 0 <= j < k ==> s@[at + j] == pat@[j],
        decreases pat.len() - k,
    {
        if s[at + k] != pat[k] {
            assert(s@.subrange(at as int, at + pat.len())[k as int] != pat@[k as int]);
            return false;
        }
        k += 1;
    }
    assert(s@.subrange(at as int, at + pat.len()) =~= pat@);
    true
}

/// Removing `pat` from `s` after a prefix that holds no occurrence at its
/// start keeps that character.
proof fn lemma_without_step(s: Seq<char>, pat: Seq<char>)
    requires
        pat.len() > 0,
        s.len() > 0,
        s.len() < pat.len() || s.subrange(0, pat.len() as int) != pat,
    ensures
        without(s, pat) == seq![s[0]] + without(s.subrange(1, s.len() as int), pat),
{
    if s.len() < pat.len() {
        assert(without(s.subrange(1, s.len() as int), pat) == s.subrange(1, s.len() as int));
        assert(seq![s[0]] + s.subrange(1, s.len() as int) =~= s);
    }
}

/// `s` with every occurrence of `pat` removed, as `str::replace` with an
/// empty replacement does; an empty `pat` leaves `s` as it is.
pub fn remove_all(s: &str, pat: &str) -> (r: String)
    ensures
        r@ == without(s@, pat@),
{
    let cs = chars_of(s);
    let ps = chars_of(pat);
    let n = cs.len();
    let m = ps.len();
    if m == 0 {
        return String::from_str(s);
    }
    let mut out = String::new();
    let mut seg: usize = 0;
    let mut i: usize = 0;
    assert(s@.subrange(0, n as int) =~= s@);
    assert(out@ + s@.subrange(0, 0) + without(s@, pat@) =~= without(s@, pat@));
    while i < n
        invariant
            cs@ == s@,
            ps@ == pat@,
            n == cs.len(),
            m == ps.len(),
            m > 0,
            seg <= i <= n,
            without(s@, pat@) == out@ + s@.subrange(seg as int, i as int) + without(
                s@.subrange(i as int, n as int),
                pat@,
            ),
        decreases n - i,
    {
        let rest = Ghost(s@.subrange(i as int, n as int));
        if m <= n - i && occurs_at(&cs, &ps, i) {
            proof {
                assert(rest@.subrange(0, m as int) =~= s@.subrange(i as int, i + m));
                assert(rest@.subrange(m as int, rest@.len() as int) =~= s@.subrange(i + m, n as int));
            }
            out.append(s.substring_char(seg, i));
            i = i + m;
            seg = i;
            assert(s@.subrange(seg as int, i as int) =~= Seq::<char>::empty());
        } else {
            proof {
                if m <= n - i {
                    assert(rest@.subrange(0, m as int) =~= s@.subrange(i as int, i + m));
                }
                lemma_without_step(rest@, pat@);
                assert(rest@.subrange(1, rest@.len() as int) =~= s@.subrange(i + 1, n as int));
                assert(s@.subrange(seg as int, i + 1) =~= s@.subrange(seg as int, i as int) + seq![s@[i as int]]);
            }
            i += 1;
        }
    }
    let ghost before = out@;
    out.append(s.substring_char(seg, n));
    assert(without(s@.subrange(n as int, n as int), pat@) =~= Seq::<char>::empty());
    assert(out@ =~= before + s@.subrange(seg as int, n as int));
    out
}

} // verus!
