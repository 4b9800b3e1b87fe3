//! Executable string handling for qualified names and diagnostics:
//! building `name@scope`, recovering the un-suffixed source name, the
//! substring search behind the recursion check, and the warning text.
use vstd::prelude::*;

verus! {

use vstd::string::{StrSliceExecFns, StringExecFns};

use crate::compile::{base_name, contains_at, contains_seq, qualified_name, warn_text};

/// Builds the qualified name `base@scope`.
pub fn qualify(base: &String, scope: &String) -> (r: String)
    ensures
        r@ == qualified_name(base@, scope@),
{
    let mut r = base.clone();
    r.append("@");
    r.append(scope.as_str());
    proof {
        reveal_strlit("@");
        assert(r@ =~= qualified_name(base@, scope@));
    }
    r
}

/// A clean prefix up to `i` makes `base_name` the subrange before `i`.
proof fn lemma_base_name_prefix(s: Seq<char>, i: int)
    requires
        0 <= i <= s.len(),
        forall|j: int| 0 <= j < i ==> s[j] != '@',
        i == s.len() || s[i] == '@',
    ensures
        base_name(s) == s.subrange(0, i),
    decreases s.len(),
{
    if s.len() == 0 {
        assert(s.subrange(0, 0) =~= Seq::<char>::empty());
    } else if s[0] == '@' {
        assert(i == 0);
        assert(s.subrange(0, 0) =~= Seq::<char>::empty());
    } else {
        assert(i >= 1);
        let t = s.drop_first();
        assert(forall|j: int| 0 <= j < i - 1 ==> t[j] != '@');
        lemma_base_name_prefix(t, i - 1);
        assert(t.subrange(0, i - 1) =~= s.subrange(1, i));
        assert(seq![s[0]] + s.subrange(1, i) =~= s.subrange(0, i));
    }
}

/// The un-suffixed source name: everything before the first `@`.
pub fn base_of(s: &String) -> (r: String)
    ensures
        r@ == base_name(s@),
{
    let ss = s.as_str();
    let n = ss.unicode_len();
    let mut i: usize = 0;
    while i < n && ss.get_char(i) != '@'
        invariant
            0 <= i <= n,
            n == s@.len(),
            ss@ == s@,
            forall|j: int| 0 <= j < i ==> s@[j] != '@',
        decreases n - i,
    {
        i += 1;
    }
    proof {
        lemma_base_name_prefix(s@, i as int);
    }
    let cut = ss.substring_char(0, i);
    String::from_str(cut)
}

/// The use-before-initialization warning for a variable, naming the
/// un-suffixed source name.
pub fn warning_for(name: &String) -> (r: String)
    ensures
        r@ == warn_text(name@),
{
    let mut r = String::from_str("Warning: Variable ");
    let base = base_of(name);
    r.append(base.as_str());
    r.append(" used before initialisation");
    r
}

/// Whether `p` occurs in `s` as a contiguous substring.
pub fn contains_sub(s: &String, p: &String) -> (r: bool)
    ensures
        r == contains_seq(s@, p@),
{
    let ss = s.as_str();
    let ps = p.as_str();
    let n = ss.unicode_len();
    let m = ps.unicode_len();
    if m > n {
        proof {
            assert forall|k: int| !contains_at(s@, p@, k) by {}
        }
        return false;
    }
    let mut i: usize = 0;
    while i <= n - m
        invariant
            m <= n,
            n == s@.len(),
            m == p@.len(),
            ss@ == s@,
            ps@ == p@,
            0 <= i <= n - m + 1,
            forall|k: int| 0 <= k < i ==> !contains_at(s@, p@, k),
        decreases n - m + 1 - i,
    {
        let mut j: usize = 0;
        while j < m && ss.get_char(i + j) == ps.get_char(j)
            invariant
                m <= n,
                n == s@.len(),
                m == p@.len(),
                ss@ == s@,
                ps@ == p@,
                0 <= i <= n - m,
                0 <= j <= m,
                forall|t: int| 0 <= t < j ==> s@[i + t] == p@[t],
            decreases m - j,
        {
            j += 1;
        }
        if j == m {
            proof {
                assert(s@.subrange(i as int, i + m) =~= p@);
                assert(contains_at(s@, p@, i as int));
            }
            return true;
        }
        proof {
            assert(s@[i + j] != p@[j as int]);
            assert forall|k: int| 0 <= k <= i implies !contains_at(s@, p@, k) by {
                if k == i {
                    if contains_at(s@, p@, k) {
                        assert(s@.subrange(k, k + p@.len())[j as int] == p@[j as int]);
                        assert(s@[i + j] == p@[j as int]);
                    }
                }
            }
        }
        i += 1;
    }
    proof {
        assert forall|k: int| !contains_at(s@, p@, k) by {
            if 0 <= k < i {
            } else if k > n - m {
                assert(!contains_at(s@, p@, k));
            }
        }
    }
    false
}

} // verus!
